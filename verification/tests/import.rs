use previewer::{import_png_signature, signature_from_decoded, ImportError, ImportOptions};

fn png(img: image::DynamicImage) -> Vec<u8> {
    let mut buf = std::io::Cursor::new(Vec::new());
    img.write_to(&mut buf, image::ImageFormat::Png).unwrap();
    buf.into_inner()
}

#[test]
fn opaque_rgb_png_is_rejected() {
    let bytes = png(image::DynamicImage::ImageRgb8(image::RgbImage::from_pixel(
        20,
        20,
        image::Rgb([0, 0, 0]),
    )));
    let result = import_png_signature("opaque.png", &bytes, ImportOptions::default());
    assert!(matches!(result, Err(ImportError::NoTransparency)));
}

#[test]
fn fully_opaque_rgba_png_is_rejected() {
    // RGBA but every pixel has alpha=255: no transparency to trim around.
    let bytes = png(image::DynamicImage::ImageRgba8(image::RgbaImage::from_pixel(
        20,
        20,
        image::Rgba([0, 0, 0, 255]),
    )));
    let result = import_png_signature("opaque_rgba.png", &bytes, ImportOptions::default());
    assert!(matches!(result, Err(ImportError::NoTransparency)));
}

#[test]
fn transparent_borders_get_trimmed() {
    // 50x30 image, but only the rect (10..40, 5..25) is opaque ink.
    let mut img = image::RgbaImage::from_pixel(50, 30, image::Rgba([0, 0, 0, 0]));
    for y in 5..25 {
        for x in 10..40 {
            img.put_pixel(x, y, image::Rgba([0, 0, 0, 255]));
        }
    }
    let bytes = png(image::DynamicImage::ImageRgba8(img));
    let sig = import_png_signature("inked.png", &bytes, ImportOptions::default()).expect("import");
    assert_eq!((sig.width, sig.height), (30, 20), "should crop to ink bbox 30x20");
    assert_eq!(sig.pixels.len(), 30 * 20 * 4);
    assert!(sig.pixels.chunks(4).all(|p| p == [0, 0, 0, 255]));
}

#[test]
fn auto_trim_disabled_keeps_original_size() {
    let mut img = image::RgbaImage::from_pixel(50, 30, image::Rgba([0, 0, 0, 0]));
    img.put_pixel(25, 15, image::Rgba([0, 0, 0, 255]));
    let bytes = png(image::DynamicImage::ImageRgba8(img));
    let opts = ImportOptions { auto_trim: false, alpha_threshold: 0 };
    let sig = import_png_signature("dot.png", &bytes, opts).expect("import");
    assert_eq!((sig.width, sig.height), (50, 30));
    assert_eq!(sig.pixels.len(), 50 * 30 * 4);
}

#[test]
fn signature_name_defaults_to_filename_stem() {
    let mut img = image::RgbaImage::from_pixel(10, 10, image::Rgba([0, 0, 0, 0]));
    img.put_pixel(5, 5, image::Rgba([0, 0, 0, 255]));
    let bytes = png(image::DynamicImage::ImageRgba8(img));
    let sig = import_png_signature("/some/dir/rik-sig.png", &bytes, ImportOptions::default()).expect("import");
    assert_eq!(sig.name, "rik-sig");
}

#[test]
fn path_without_stem_is_named_signature() {
    let mut img = image::RgbaImage::from_pixel(3, 3, image::Rgba([0, 0, 0, 0]));
    img.put_pixel(1, 1, image::Rgba([9, 8, 7, 255]));
    let bytes = png(image::DynamicImage::ImageRgba8(img));
    let sig = import_png_signature("", &bytes, ImportOptions::default()).expect("import");
    assert_eq!(sig.name, "Signature");
}

#[test]
fn single_opaque_pixel_crops_to_it() {
    let mut img = image::RgbaImage::from_pixel(7, 5, image::Rgba([0, 0, 0, 0]));
    img.put_pixel(6, 0, image::Rgba([1, 2, 3, 200]));
    let bytes = png(image::DynamicImage::ImageRgba8(img));
    let sig = import_png_signature("p.png", &bytes, ImportOptions::default()).expect("import");
    assert_eq!((sig.width, sig.height), (1, 1));
    assert_eq!(sig.pixels, vec![1, 2, 3, 200]);
}

#[test]
fn crop_keeps_rows_in_order_and_interior_transparency() {
    // L-shaped ink: (1,1) and (3,2); bbox is x 1..=3, y 1..=2.
    let mut img = image::RgbaImage::from_pixel(5, 4, image::Rgba([0, 0, 0, 0]));
    img.put_pixel(1, 1, image::Rgba([10, 0, 0, 255]));
    img.put_pixel(3, 2, image::Rgba([20, 0, 0, 255]));
    let bytes = png(image::DynamicImage::ImageRgba8(img));
    let sig = import_png_signature("l.png", &bytes, ImportOptions::default()).expect("import");
    assert_eq!((sig.width, sig.height), (3, 2));
    let expected: Vec<u8> = vec![
        10, 0, 0, 255, 0, 0, 0, 0, 0, 0, 0, 0, //
        0, 0, 0, 0, 0, 0, 0, 0, 20, 0, 0, 255,
    ];
    assert_eq!(sig.pixels, expected);
}

#[test]
fn alpha_threshold_decides_what_counts_as_ink() {
    // Everything has alpha 50; with threshold 50 nothing is ink, so the trim
    // yields a single transparent pixel.
    let img = image::RgbaImage::from_pixel(4, 4, image::Rgba([5, 5, 5, 50]));
    let bytes = png(image::DynamicImage::ImageRgba8(img));
    let opts = ImportOptions { auto_trim: true, alpha_threshold: 50 };
    let sig = import_png_signature("faint.png", &bytes, opts).expect("import");
    assert_eq!((sig.width, sig.height), (1, 1));
    assert_eq!(sig.pixels, vec![0, 0, 0, 0]);
    // With threshold 49 nothing is transparent any more.
    let opts = ImportOptions { auto_trim: true, alpha_threshold: 49 };
    let result = import_png_signature("faint.png", &bytes, opts);
    assert!(matches!(result, Err(ImportError::NoTransparency)));
}

#[test]
fn undecodable_bytes_are_a_decode_error() {
    let result = import_png_signature("x.png", b"not a png", ImportOptions::default());
    assert!(matches!(result, Err(ImportError::Decode(_))));
}

#[test]
fn default_options_trim_at_zero_alpha() {
    let o = ImportOptions::default();
    assert!(o.auto_trim);
    assert_eq!(o.alpha_threshold, 0);
}

#[test]
fn decoded_pixels_are_cropped_and_named_by_stem() {
    let pixels = vec![0u8, 0, 0, 0, 9, 8, 7, 255];
    let opts = ImportOptions { auto_trim: true, alpha_threshold: 0 };
    let sig = signature_from_decoded(Some("ink".to_string()), Ok((2, 1, pixels)), opts).unwrap();
    assert_eq!(sig.name, "ink");
    assert_eq!((sig.width, sig.height), (1, 1));
    assert_eq!(sig.pixels, vec![9, 8, 7, 255]);
}

#[test]
fn decoded_pixels_without_transparency_are_refused() {
    let pixels = vec![1u8, 2, 3, 255];
    let r = signature_from_decoded(None, Ok((1, 1, pixels)), ImportOptions::default());
    assert!(matches!(r, Err(ImportError::NoTransparency)));
}

#[test]
fn fully_transparent_decoded_image_becomes_one_clear_pixel() {
    let pixels = vec![5u8, 5, 5, 0, 6, 6, 6, 0];
    let sig = signature_from_decoded(None, Ok((2, 1, pixels)), ImportOptions::default()).unwrap();
    assert_eq!(sig.name, "Signature");
    assert_eq!((sig.width, sig.height), (1, 1));
    assert_eq!(sig.pixels, vec![0, 0, 0, 0]);
}
