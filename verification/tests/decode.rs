use previewer::{decode_to_rgba, extension_is_heic, is_heic_extension, DecodedImage, Error};

fn encode(img: image::DynamicImage, fmt: image::ImageFormat) -> Vec<u8> {
    let mut buf = std::io::Cursor::new(Vec::new());
    img.write_to(&mut buf, fmt).unwrap();
    buf.into_inner()
}

fn red_image() -> image::RgbaImage {
    image::RgbaImage::from_pixel(4, 3, image::Rgba([255, 0, 0, 255]))
}

#[test]
fn png_round_trip_is_lossless() {
    let bytes = encode(image::DynamicImage::ImageRgba8(red_image()), image::ImageFormat::Png);
    let decoded = decode_to_rgba("sample.png", &bytes).expect("decode failed");
    assert_eq!(decoded.dimensions(), (4, 3));
    assert_eq!(decoded.width(), 4);
    assert_eq!(decoded.height(), 3);
    assert_eq!(decoded.pixels().len(), 4 * 3 * 4);
    assert_eq!(&decoded.pixels()[0..4], &[255, 0, 0, 255]);
}

#[test]
fn webp_round_trip_is_lossless() {
    let bytes = encode(image::DynamicImage::ImageRgba8(red_image()), image::ImageFormat::WebP);
    let decoded = decode_to_rgba("sample.webp", &bytes).expect("decode failed");
    assert_eq!(decoded.dimensions(), (4, 3));
    assert_eq!(&decoded.pixels()[0..4], &[255, 0, 0, 255]);
}

#[test]
fn jpeg_round_trip_dimensions_only() {
    // JPEG is lossy and has no alpha: check the size and that the image is
    // "very red".
    let rgb = image::RgbImage::from_pixel(4, 3, image::Rgb([255, 0, 0]));
    let bytes = encode(image::DynamicImage::ImageRgb8(rgb), image::ImageFormat::Jpeg);
    let decoded = decode_to_rgba("sample.jpg", &bytes).expect("decode failed");

    assert_eq!(decoded.dimensions(), (4, 3));
    let r = decoded.pixels()[0];
    let g = decoded.pixels()[1];
    let b = decoded.pixels()[2];
    let a = decoded.pixels()[3];
    assert!(r > 200, "expected red-dominant pixel, got r={r}");
    assert!(g < 60, "expected red-dominant pixel, got g={g}");
    assert!(b < 60, "expected red-dominant pixel, got b={b}");
    assert_eq!(a, 255, "JPEG should decode to fully opaque alpha");
}

#[test]
fn format_is_guessed_from_content_not_name() {
    let bytes = encode(image::DynamicImage::ImageRgba8(red_image()), image::ImageFormat::Png);
    let decoded = decode_to_rgba("misnamed.jpg", &bytes).expect("decode failed");
    assert_eq!(decoded.dimensions(), (4, 3));
}

#[test]
fn garbage_bytes_are_a_decode_error() {
    let result = decode_to_rgba("broken.png", b"definitely not an image");
    assert!(matches!(result, Err(Error::Decode(_))));
}

#[test]
fn heic_paths_are_unsupported_in_this_build() {
    let bytes = encode(image::DynamicImage::ImageRgba8(red_image()), image::ImageFormat::Png);
    assert!(matches!(decode_to_rgba("photo.heic", &bytes), Err(Error::UnsupportedFormat(_))));
    assert!(matches!(decode_to_rgba("/tmp/PHOTO.HeIf", &bytes), Err(Error::UnsupportedFormat(_))));
}

#[test]
fn heic_extension_is_case_insensitive() {
    assert!(is_heic_extension("a/b/photo.heic"));
    assert!(is_heic_extension("photo.HEIC"));
    assert!(is_heic_extension("photo.Heif"));
    assert!(!is_heic_extension("photo.png"));
    assert!(!is_heic_extension("heic"));
    assert!(!is_heic_extension("photo.heic.png"));
    assert!(!is_heic_extension(".heic"));
}

/// Build a 2x3 image with each pixel a unique color:
///
///   (0,0)R  (1,0)G
///   (0,1)B  (1,1)Y
///   (0,2)C  (1,2)M
fn marker_image() -> DecodedImage {
    let mut img = image::RgbaImage::new(2, 3);
    img.put_pixel(0, 0, image::Rgba([255, 0, 0, 255])); // R
    img.put_pixel(1, 0, image::Rgba([0, 255, 0, 255])); // G
    img.put_pixel(0, 1, image::Rgba([0, 0, 255, 255])); // B
    img.put_pixel(1, 1, image::Rgba([255, 255, 0, 255])); // Y
    img.put_pixel(0, 2, image::Rgba([0, 255, 255, 255])); // C
    img.put_pixel(1, 2, image::Rgba([255, 0, 255, 255])); // M
    let bytes = encode(image::DynamicImage::ImageRgba8(img), image::ImageFormat::Png);
    decode_to_rgba("m.png", &bytes).unwrap()
}

fn pixel_at(img: &DecodedImage, x: u32, y: u32) -> [u8; 4] {
    let (w, _) = img.dimensions();
    let idx = ((y * w + x) * 4) as usize;
    let p = &img.pixels()[idx..idx + 4];
    [p[0], p[1], p[2], p[3]]
}

#[test]
fn rotate_90_cw_swaps_dimensions() {
    let img = marker_image();
    assert_eq!(img.dimensions(), (2, 3));
    let r = img.rotated_90_cw();
    assert_eq!(r.dimensions(), (3, 2));
}

#[test]
fn rotate_90_cw_maps_corners() {
    // 90° CW: top-left -> top-right, top-right -> bottom-right,
    //         bottom-right -> bottom-left, bottom-left -> top-left.
    let img = marker_image();
    let r = img.rotated_90_cw();
    assert_eq!(pixel_at(&r, 2, 0), [255, 0, 0, 255], "R should be top-right");
    assert_eq!(pixel_at(&r, 2, 1), [0, 255, 0, 255], "G should be bottom-right");
    assert_eq!(pixel_at(&r, 0, 0), [0, 255, 255, 255], "C should be top-left");
    assert_eq!(pixel_at(&r, 0, 1), [255, 0, 255, 255], "M should be bottom-left");
}

#[test]
fn four_rotations_is_identity() {
    let img = marker_image();
    let r4 = img.rotated_90_cw().rotated_90_cw().rotated_90_cw().rotated_90_cw();
    assert_eq!(img, r4);
}

#[test]
fn two_rotations_turn_the_image_upside_down() {
    let img = marker_image();
    let r2 = img.rotated_90_cw().rotated_90_cw();
    assert_eq!(r2.dimensions(), (2, 3));
    assert_eq!(pixel_at(&r2, 1, 2), [255, 0, 0, 255]);
    assert_eq!(pixel_at(&r2, 0, 0), [255, 0, 255, 255]);
}

#[test]
fn clone_keeps_pixels() {
    let img = marker_image();
    let c = img.clone();
    assert_eq!(img, c);
}

#[test]
fn heic_and_heif_extensions_match_without_case() {
    assert!(extension_is_heic(Some("HEIC")));
    assert!(extension_is_heic(Some("heif")));
    assert!(!extension_is_heic(Some("png")));
    assert!(!extension_is_heic(None));
}

#[test]
fn decoder_output_of_the_wrong_size_is_refused() {
    let r = DecodedImage::from_decoded(Ok((2, 2, vec![0u8; 15])));
    assert!(matches!(r, Err(Error::UnsupportedFormat(_))));
    let img = DecodedImage::from_decoded(Ok((1, 1, vec![1u8, 2, 3, 4]))).unwrap();
    assert_eq!(img.dimensions(), (1, 1));
    assert_eq!(img.pixels(), &[1, 2, 3, 4]);
}
