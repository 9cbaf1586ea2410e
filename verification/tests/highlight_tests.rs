use omnirec::highlight::{border_pixels, format_window_address, parse_window_address, BORDER_WIDTH};

#[test]
fn border_is_opaque_blue_inside_transparent() {
    let w = 20;
    let h = 18;
    let px = border_pixels(w, h);
    assert_eq!(px.len(), (w * h * 4) as usize);
    let at = |x: i32, y: i32| &px[((y * w + x) * 4) as usize..((y * w + x) * 4 + 4) as usize];
    assert_eq!(at(0, 0), &[0xF3, 0x96, 0x21, 0xFF]);
    assert_eq!(at(BORDER_WIDTH, BORDER_WIDTH), &[0, 0, 0, 0]);
    assert_eq!(at(w - BORDER_WIDTH, 9), &[0xF3, 0x96, 0x21, 0xFF]);
    assert_eq!(at(w - BORDER_WIDTH - 1, 9), &[0, 0, 0, 0]);
}

#[test]
fn window_addresses_round_trip() {
    assert_eq!(parse_window_address("0x5638d0a12345"), 0x5638d0a12345);
    assert_eq!(parse_window_address("0x0xFF"), 255);
    assert_eq!(parse_window_address("zz"), 0);
    assert_eq!(parse_window_address("0x"), 0);
    assert_eq!(parse_window_address("-10"), -16);
    assert_eq!(format_window_address(0x5638d0a12345), "0x5638d0a12345");
    assert_eq!(format_window_address(0), "0x0");
    let a = format_window_address(123456789);
    assert_eq!(parse_window_address(&a), 123456789);
}
