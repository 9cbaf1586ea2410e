use omnirec::thumbnail::{
    bgra_to_jpeg_thumbnail, calculate_scaled_dimensions, fast_downsample_bgra_to_rgb,
    PREVIEW_MAX_HEIGHT, PREVIEW_MAX_WIDTH, THUMBNAIL_MAX_HEIGHT, THUMBNAIL_MAX_WIDTH,
};

#[test]
fn test_calculate_scaled_dimensions_landscape() {
    let (w, h) = calculate_scaled_dimensions(1920, 1080, 320, 180);
    assert_eq!(w, 320);
    assert_eq!(h, 180);
}

#[test]
fn test_calculate_scaled_dimensions_portrait() {
    let (w, h) = calculate_scaled_dimensions(1080, 1920, 320, 180);
    assert_eq!(w, 101);
    assert_eq!(h, 180);
}

#[test]
fn test_calculate_scaled_dimensions_no_upscale() {
    let (w, h) = calculate_scaled_dimensions(100, 50, 320, 180);
    assert_eq!(w, 100);
    assert_eq!(h, 50);
}

#[test]
fn scaled_dimensions_edge_cases() {
    assert_eq!(calculate_scaled_dimensions(0, 100, 320, 180), (320, 180));
    assert_eq!(calculate_scaled_dimensions(10000, 1, 320, 180), (320, 1));
    // 1000x300 into 400x300: width-limited, 300 * 400 / 1000 = 120.
    assert_eq!(calculate_scaled_dimensions(1000, 300, 400, 300), (400, 120));
    // rounding half up: 3x2 into 2x2 -> height 2 * 2 / 3 = 1.33 -> 1
    assert_eq!(calculate_scaled_dimensions(3, 2, 2, 2), (2, 1));
    // 4x3 into 2x2 -> 3 * 2 / 4 = 1.5 -> 2
    assert_eq!(calculate_scaled_dimensions(4, 3, 2, 2), (2, 2));
}

#[test]
fn thumbnail_bounds_are_the_documented_ones() {
    assert_eq!((THUMBNAIL_MAX_WIDTH, THUMBNAIL_MAX_HEIGHT), (320, 180));
    assert_eq!((PREVIEW_MAX_WIDTH, PREVIEW_MAX_HEIGHT), (400, 300));
}

#[test]
fn test_fast_downsample() {
    let data = vec![
        255, 0, 0, 255, 255, 0, 0, 255, 0, 255, 0, 255, 0, 255, 0, 255,
        255, 0, 0, 255, 255, 0, 0, 255, 0, 255, 0, 255, 0, 255, 0, 255,
        0, 0, 255, 255, 0, 0, 255, 255, 255, 255, 255, 255, 255, 255, 255, 255,
        0, 0, 255, 255, 0, 0, 255, 255, 255, 255, 255, 255, 255, 255, 255, 255,
    ];
    let rgb = fast_downsample_bgra_to_rgb(&data, 4, 4, 2, 2);
    assert_eq!(rgb.len(), 2 * 2 * 3);
    assert_eq!(&rgb[0..3], &[0, 0, 255]);
    assert_eq!(&rgb[3..6], &[0, 255, 0]);
    assert_eq!(&rgb[6..9], &[255, 0, 0]);
    assert_eq!(&rgb[9..12], &[255, 255, 255]);
}

#[test]
fn downsample_to_same_size_swaps_channels() {
    let data = vec![1, 2, 3, 4, 5, 6, 7, 8];
    assert_eq!(fast_downsample_bgra_to_rgb(&data, 2, 1, 2, 1), vec![3, 2, 1, 7, 6, 5]);
}

#[test]
fn test_bgra_to_jpeg_thumbnail() {
    let width = 10u32;
    let height = 10u32;
    let mut data = Vec::with_capacity((width * height * 4) as usize);
    for _ in 0..(width * height) {
        data.extend_from_slice(&[255, 0, 0, 255]);
    }
    let result = bgra_to_jpeg_thumbnail(&data, width, height, 320, 180);
    assert!(result.is_ok());
    let (base64_str, scaled_w, scaled_h) = result.unwrap();
    assert!(!base64_str.is_empty());
    assert_eq!(scaled_w, 10);
    assert_eq!(scaled_h, 10);
    // A JPEG file starts with the bytes FF D8 FF, "/9j/" in base64.
    assert!(base64_str.starts_with("/9j/"));
}

#[test]
fn jpeg_thumbnail_rejects_short_buffer() {
    let data = vec![0u8; 10];
    let r = bgra_to_jpeg_thumbnail(&data, 4, 4, 320, 180);
    assert_eq!(r, Err("Buffer too small: expected 64 bytes, got 10".to_string()));
}
