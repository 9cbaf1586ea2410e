use omnirec::frame::{
    crop_captured_frame, crop_frame, crop_frame_data, even_dimensions, extract_frame_data,
    frame_for_encoder, CapturedFrame, CropRegion,
};

fn indexed_4x4() -> Vec<u8> {
    let mut data = Vec::new();
    for i in 0u8..16 {
        data.extend_from_slice(&[i, i, i, 255]);
    }
    data
}

#[test]
fn thumbnail_test_crop_frame_basic() {
    let data = indexed_4x4();
    let cropped = crop_frame(&data, 4, 4, 1, 1, 2, 2);
    assert_eq!(cropped.len(), 2 * 2 * 4);
    assert_eq!(cropped[0..4], [5, 5, 5, 255]);
    assert_eq!(cropped[4..8], [6, 6, 6, 255]);
    assert_eq!(cropped[8..12], [9, 9, 9, 255]);
    assert_eq!(cropped[12..16], [10, 10, 10, 255]);
}

#[test]
fn thumbnail_test_crop_frame_clamps_bounds() {
    let data = vec![128u8; 4 * 4 * 4];
    let cropped = crop_frame(&data, 4, 4, 3, 3, 10, 10);
    assert_eq!(cropped.len(), 4);
}

#[test]
fn thumbnail_test_crop_frame_empty_region() {
    let data = vec![128u8; 4 * 4 * 4];
    let cropped = crop_frame(&data, 4, 4, 0, 0, 0, 0);
    assert!(cropped.is_empty());
}

#[test]
fn test_crop_frame_negative_coords() {
    let data = vec![128u8; 4 * 4 * 4];
    let cropped = crop_frame(&data, 4, 4, -1, -1, 2, 2);
    assert_eq!(cropped.len(), 2 * 2 * 4);
}

#[test]
fn test_crop_frame() {
    let frame = CapturedFrame { width: 10, height: 10, data: vec![0u8; 400] };
    let cropped = crop_captured_frame(&frame, 2, 2, 5, 5);
    assert!(cropped.is_some());
    let cropped = cropped.unwrap();
    assert_eq!(cropped.width, 5);
    assert_eq!(cropped.height, 5);
    assert_eq!(cropped.data.len(), 100);
}

#[test]
fn test_crop_frame_invalid() {
    let frame = CapturedFrame { width: 10, height: 10, data: vec![0u8; 400] };
    let cropped = crop_captured_frame(&frame, 8, 8, 5, 5);
    assert!(cropped.is_none());
}

#[test]
fn strict_crop_takes_the_right_pixels() {
    let frame = CapturedFrame { width: 4, height: 4, data: indexed_4x4() };
    let c = crop_captured_frame(&frame, 2, 1, 2, 2).unwrap();
    assert_eq!(c.data, vec![6, 6, 6, 255, 7, 7, 7, 255, 10, 10, 10, 255, 11, 11, 11, 255]);
}

#[test]
fn crop_frame_data_clamps_and_rejects() {
    let data = indexed_4x4();
    let r = crop_frame_data(&data, 4, 4, CropRegion { x: 3, y: 3, width: 5, height: 5 });
    assert_eq!(r, Some(vec![15, 15, 15, 255]));
    assert_eq!(crop_frame_data(&data, 4, 4, CropRegion { x: -1, y: 0, width: 2, height: 2 }), None);
    assert_eq!(crop_frame_data(&data, 4, 4, CropRegion { x: 4, y: 0, width: 2, height: 2 }), None);
    let short = vec![0u8; 20];
    assert_eq!(crop_frame_data(&short, 4, 4, CropRegion { x: 0, y: 1, width: 2, height: 2 }), None);
}

#[test]
fn extract_removes_row_padding() {
    // 2x2 frame, rows padded to 12 bytes.
    let mut slice = Vec::new();
    slice.extend_from_slice(&[1, 1, 1, 1, 2, 2, 2, 2, 9, 9, 9, 9]);
    slice.extend_from_slice(&[3, 3, 3, 3, 4, 4, 4, 4, 9, 9, 9, 9]);
    let out = extract_frame_data(&slice, 2, 2, 12, 4).unwrap();
    assert_eq!(out, vec![1, 1, 1, 1, 2, 2, 2, 2, 3, 3, 3, 3, 4, 4, 4, 4]);
    assert_eq!(extract_frame_data(&slice[..15], 2, 2, 12, 4), None);
    let packed = vec![7u8; 16];
    assert_eq!(extract_frame_data(&packed, 2, 2, 8, 4), Some(packed.clone()));
}

#[test]
fn encoder_frames_are_cropped_to_even_size() {
    assert_eq!(even_dimensions(101, 51), Some((100, 50)));
    assert_eq!(even_dimensions(1, 50), None);
    let frame = CapturedFrame { width: 3, height: 2, data: (0u8..24).collect() };
    assert_eq!(frame_for_encoder(&frame, 2, 2), Some(vec![0, 1, 2, 3, 4, 5, 6, 7, 12, 13, 14, 15, 16, 17, 18, 19]));
    assert_eq!(frame_for_encoder(&frame, 3, 2), Some((0u8..24).collect()));
    assert_eq!(frame_for_encoder(&frame, 4, 2), None);
}
