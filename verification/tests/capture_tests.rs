use omnirec::capture::{
    stops_capture, stream_crop, validate_region, CaptureRegion, StreamPhase, StreamState,
};
use omnirec::frame::CropRegion;
use omnirec::pixel::PixelFormat;
use omnirec::platform::{CaptureError, MonitorInfo};

fn monitor(id: &str, w: u32, h: u32) -> MonitorInfo {
    MonitorInfo { id: id.to_string(), name: id.to_string(), x: 0, y: 0, width: w, height: h, is_primary: false }
}

fn region(id: &str, x: i32, y: i32, w: u32, h: u32) -> CaptureRegion {
    CaptureRegion { monitor_id: id.to_string(), x, y, width: w, height: h }
}

fn invalid(r: Result<usize, CaptureError>) -> String {
    match r {
        Err(CaptureError::InvalidRegion(m)) => m,
        other => panic!("unexpected {:?}", other),
    }
}

#[test]
fn region_validation_messages() {
    let monitors = vec![monitor("DP-1", 1920, 1080), monitor("HDMI-1", 1280, 720)];
    assert_eq!(validate_region(&region("HDMI-1", 0, 0, 200, 200), &monitors).unwrap(), 1);
    assert_eq!(
        invalid(validate_region(&region("DP-1", 0, 0, 0, 50), &monitors)),
        "Region width and height must be greater than 0"
    );
    assert_eq!(
        invalid(validate_region(&region("DP-1", 0, 0, 99, 500), &monitors)),
        "Region must be at least 100x100 pixels (got 99x500)"
    );
    match validate_region(&region("X", 0, 0, 200, 200), &monitors) {
        Err(CaptureError::TargetNotFound(m)) => assert_eq!(m, "Monitor 'X' not found"),
        other => panic!("unexpected {:?}", other),
    }
    assert_eq!(
        invalid(validate_region(&region("DP-1", -5, 3, 200, 200), &monitors)),
        "Region coordinates cannot be negative (-5, 3)"
    );
    assert_eq!(
        invalid(validate_region(&region("HDMI-1", 1200, 10, 200, 200), &monitors)),
        "Region extends beyond monitor bounds (region: 200x200 at 1200,10, monitor: 1280x720)"
    );
}

#[test]
fn region_mapped_onto_stream() {
    let r = region("DP-1", 100, 50, 300, 200);
    assert_eq!(stream_crop(&r, 1920, 1080, 1000, 500), None);
    assert_eq!(stream_crop(&r, 1920, 1080, 3840, 2160), Some((200, 100, 600, 400)));
    assert_eq!(stream_crop(&r, 1000, 1000, 1500, 1000), Some((150, 50, 450, 200)));
}

#[test]
fn stream_buffers_become_frames() {
    let mut s = StreamState::new(2, 2, None, false);
    s.on_format(2, 2, PixelFormat::Rgbx);
    let slice = vec![1, 2, 3, 0, 4, 5, 6, 0, 9, 9, 7, 8, 9, 0, 10, 11, 12, 0, 9, 9];
    let f = s.process_buffer(&slice, 10).unwrap();
    assert_eq!((f.width, f.height), (2, 2));
    assert_eq!(f.data, vec![3, 2, 1, 0, 6, 5, 4, 0, 9, 8, 7, 0, 12, 11, 10, 0]);
    assert!(s.process_buffer(&slice, 0).is_none());
    assert!(s.process_buffer(&slice[..12], 10).is_none());
    assert_eq!(s.frames_received, 3);
}

#[test]
fn stream_crop_region_is_applied() {
    let crop = CropRegion { x: 1, y: 0, width: 1, height: 2 };
    let mut s = StreamState::new(2, 2, Some(crop), false);
    let slice: Vec<u8> = (0u8..16).collect();
    let f = s.process_buffer(&slice, 8).unwrap();
    assert_eq!((f.width, f.height), (1, 2));
    assert_eq!(f.data, vec![4, 5, 6, 7, 12, 13, 14, 15]);
}

#[test]
fn auto_crop_on_first_frame() {
    let mut s = StreamState::new(20, 10, None, true);
    let mut data = vec![0u8; 20 * 10 * 4];
    for y in 2..5u32 {
        for x in 3..6u32 {
            data[((y * 20 + x) * 4) as usize] = 100;
        }
    }
    let f = s.process_buffer(&data, 80).unwrap();
    assert_eq!((f.width, f.height), (3, 3));
    assert_eq!(s.auto_crop, Some(CropRegion { x: 3, y: 2, width: 3, height: 3 }));
    // Later frames keep the crop.
    let f2 = s.process_buffer(&vec![0u8; 800], 80).unwrap();
    assert_eq!((f2.width, f2.height), (3, 3));

    let mut black = StreamState::new(20, 10, None, true);
    let f = black.process_buffer(&vec![0u8; 800], 80).unwrap();
    assert_eq!((f.width, f.height), (20, 10));
    assert!(!black.enable_auto_crop);
}

#[test]
fn stream_state_changes_that_end_capture() {
    assert!(stops_capture(StreamPhase::Streaming, StreamPhase::Error));
    assert!(stops_capture(StreamPhase::Connecting, StreamPhase::Unconnected));
    assert!(stops_capture(StreamPhase::Streaming, StreamPhase::Paused));
    assert!(!stops_capture(StreamPhase::Connecting, StreamPhase::Paused));
    assert!(!stops_capture(StreamPhase::Paused, StreamPhase::Streaming));
    assert!(!stops_capture(StreamPhase::Unconnected, StreamPhase::Connecting));
}

#[test]
fn region_previews_need_ten_pixels() {
    assert!(omnirec::capture::check_preview_region(10, 10).is_ok());
    match omnirec::capture::check_preview_region(9, 40) {
        Err(CaptureError::InvalidRegion(m)) => {
            assert_eq!(m, "Region must be at least 10x10 pixels (got 9x40)")
        },
        _ => panic!("expected an invalid region"),
    }
}

#[test]
fn display_ids_are_numbers() {
    assert_eq!(omnirec::capture::parse_display_id("69734208").ok(), Some(69734208));
    match omnirec::capture::parse_display_id("HDMI-1") {
        Err(CaptureError::InvalidParameters(m)) => assert_eq!(m, "Invalid monitor ID: HDMI-1"),
        _ => panic!("expected invalid parameters"),
    }
}

#[test]
fn capture_display_ids_are_numbers() {
    assert_eq!(omnirec::capture::parse_capture_display_id("2").ok(), Some(2));
    match omnirec::capture::parse_capture_display_id("x1") {
        Err(CaptureError::InvalidParameters(m)) => assert_eq!(m, "Invalid monitor ID"),
        _ => panic!("expected invalid parameters"),
    }
}
