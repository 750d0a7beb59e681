use previewer::{argb32_to_rgba, rgba_to_argb32, RenderedPage};

#[test]
fn opaque_pixels_are_swizzled_to_bgra() {
    let src = [10u8, 20, 30, 255, 40, 50, 60, 255];
    let out = rgba_to_argb32(2, 1, 8, &src);
    assert_eq!(out, vec![30, 20, 10, 255, 60, 50, 40, 255]);
}

#[test]
fn translucent_pixels_are_premultiplied() {
    let src = [255u8, 128, 0, 128];
    let out = rgba_to_argb32(1, 1, 4, &src);
    // 255*128/255 = 128, 128*128/255 = 64 (rounded down), 0
    assert_eq!(out, vec![0, 64, 128, 128]);
}

#[test]
fn row_padding_is_zero() {
    let src = [1u8, 2, 3, 255, 4, 5, 6, 255];
    let out = rgba_to_argb32(1, 2, 8, &src);
    assert_eq!(out, vec![3, 2, 1, 255, 0, 0, 0, 0, 6, 5, 4, 255, 0, 0, 0, 0]);
}

#[test]
fn rendered_page_keeps_its_raster() {
    let page = RenderedPage::from_raw(1, 2, vec![1, 2, 3, 4, 5, 6, 7, 8]);
    assert_eq!(page.dimensions(), (1, 2));
    assert_eq!(page.width(), 1);
    assert_eq!(page.height(), 2);
    assert_eq!(page.pixels(), &[1, 2, 3, 4, 5, 6, 7, 8]);
}

#[test]
fn surface_data_is_unpremultiplied_back_to_rgba() {
    // B, G, R, A with alpha 128
    let data = [0u8, 64, 128, 128];
    assert_eq!(argb32_to_rgba(1, 1, 4, &data), vec![255, 127, 0, 128]);
}

#[test]
fn fully_transparent_surface_pixels_read_back_as_zero() {
    let data = [5u8, 6, 7, 0];
    assert_eq!(argb32_to_rgba(1, 1, 4, &data), vec![0, 0, 0, 0]);
}

#[test]
fn surface_row_padding_is_skipped_on_read_back() {
    let data = [3u8, 2, 1, 255, 9, 9, 9, 9, 6, 5, 4, 255];
    assert_eq!(argb32_to_rgba(1, 2, 8, &data), vec![1, 2, 3, 255, 4, 5, 6, 255]);
}

#[test]
fn opaque_image_survives_a_round_trip_through_a_surface() {
    let src = [10u8, 20, 30, 255, 40, 50, 60, 255, 70, 80, 90, 255, 1, 2, 3, 255];
    let data = rgba_to_argb32(2, 2, 12, &src);
    assert_eq!(argb32_to_rgba(2, 2, 12, &data), src.to_vec());
}
