use omnirec::frame::CropRegion;
use omnirec::pixel::{convert_to_bgra, detect_content_bounds, PixelFormat};

#[test]
fn conversions_to_bgra() {
    let px = vec![1u8, 2, 3, 4, 5, 6, 7, 8, 9];
    assert_eq!(convert_to_bgra(px.clone(), PixelFormat::Bgra), px);
    assert_eq!(convert_to_bgra(px.clone(), PixelFormat::Rgba), vec![3, 2, 1, 4, 7, 6, 5, 8, 9]);
    assert_eq!(convert_to_bgra(px.clone(), PixelFormat::Argb), vec![4, 3, 2, 1, 8, 7, 6, 5]);
    assert_eq!(convert_to_bgra(px.clone(), PixelFormat::Xrgb), vec![4, 3, 2, 255, 8, 7, 6, 255]);
    assert_eq!(convert_to_bgra(px.clone(), PixelFormat::Abgr), vec![2, 3, 4, 1, 6, 7, 8, 5]);
    assert_eq!(convert_to_bgra(px.clone(), PixelFormat::Xbgr), vec![2, 3, 4, 255, 6, 7, 8, 255]);
    assert_eq!(convert_to_bgra(px.clone(), PixelFormat::Other), px);
    let twice = convert_to_bgra(convert_to_bgra(px.clone(), PixelFormat::Rgbx), PixelFormat::Rgbx);
    assert_eq!(twice, px);
}

fn frame_with_box(w: u32, h: u32, x0: u32, y0: u32, x1: u32, y1: u32) -> Vec<u8> {
    let mut data = vec![0u8; (w * h * 4) as usize];
    for y in y0..=y1 {
        for x in x0..=x1 {
            let i = ((y * w + x) * 4) as usize;
            data[i] = 200;
        }
    }
    data
}

#[test]
fn content_bounds_found_when_smaller() {
    let data = frame_with_box(40, 30, 5, 4, 24, 19);
    assert_eq!(
        detect_content_bounds(&data, 40, 30),
        Some(CropRegion { x: 5, y: 4, width: 20, height: 16 })
    );
}

#[test]
fn content_bounds_none_when_black_or_full() {
    let black = vec![0u8; 40 * 30 * 4];
    assert_eq!(detect_content_bounds(&black, 40, 30), None);
    // 19 of 20 columns and all rows: exactly 95% wide, 100% high -> full.
    let nearly = frame_with_box(20, 10, 0, 0, 18, 9);
    assert_eq!(detect_content_bounds(&nearly, 20, 10), None);
    // 18 of 20 columns -> 90% -> cropped.
    let narrower = frame_with_box(20, 10, 1, 0, 18, 9);
    assert_eq!(
        detect_content_bounds(&narrower, 20, 10),
        Some(CropRegion { x: 1, y: 0, width: 18, height: 10 })
    );
    // A dim pixel (value 8) is not content.
    let mut dim = vec![0u8; 20 * 10 * 4];
    dim[4] = 8;
    assert_eq!(detect_content_bounds(&dim, 20, 10), None);
}
