use battery_health::frame::{BinaryColor, FrameBuffer, HEIGHT, WIDTH};

#[test]
fn new_buffer_is_black() {
    let f = FrameBuffer::new();
    assert_eq!(f.bytes().len(), 5000);
    assert!(f.bytes().iter().all(|b| *b == 0));
}

#[test]
fn white_pixels_set_bits() {
    let mut f = FrameBuffer::new();
    f.draw_helper(WIDTH, HEIGHT, 0, 0, BinaryColor::Off);
    assert_eq!(f.bytes()[0], 0x80);
    f.draw_helper(WIDTH, HEIGHT, 7, 0, BinaryColor::Off);
    assert_eq!(f.bytes()[0], 0x81);
    f.draw_helper(WIDTH, HEIGHT, 8, 0, BinaryColor::Off);
    assert_eq!(f.bytes()[1], 0x80);
    f.draw_helper(WIDTH, HEIGHT, 0, 1, BinaryColor::Off);
    assert_eq!(f.bytes()[25], 0x80);
    f.draw_helper(WIDTH, HEIGHT, 199, 199, BinaryColor::Off);
    assert_eq!(f.bytes()[4999], 0x01);
}

#[test]
fn black_pixels_clear_bits() {
    let mut f = FrameBuffer::new();
    f.clear(false);
    f.draw_helper(WIDTH, HEIGHT, 3, 2, BinaryColor::On);
    assert_eq!(f.bytes()[50], 0xEF);
    assert_eq!(f.bytes()[49], 0xFF);
    assert_eq!(f.bytes()[51], 0xFF);
    f.draw_helper(WIDTH, HEIGHT, 3, 2, BinaryColor::On);
    assert_eq!(f.bytes()[50], 0xEF);
    f.draw_helper(WIDTH, HEIGHT, 3, 2, BinaryColor::Off);
    assert_eq!(f.bytes()[50], 0xFF);
}

#[test]
fn pixels_outside_are_dropped() {
    let mut f = FrameBuffer::new();
    f.draw_helper(WIDTH, HEIGHT, -1, 0, BinaryColor::Off);
    f.draw_helper(WIDTH, HEIGHT, 0, -1, BinaryColor::Off);
    f.draw_helper(WIDTH, HEIGHT, 0, 200, BinaryColor::Off);
    assert!(f.bytes().iter().all(|b| *b == 0));
    f.draw_helper(WIDTH, HEIGHT, 200, 0, BinaryColor::Off);
    assert_eq!(f.bytes()[25], 0x80);
}

#[test]
fn clear_paints_everything() {
    let mut f = FrameBuffer::new();
    f.clear(false);
    assert!(f.bytes().iter().all(|b| *b == 0xFF));
    f.clear(true);
    assert!(f.bytes().iter().all(|b| *b == 0x00));
}

#[test]
fn draw_fits_bounds_the_arithmetic() {
    assert!(FrameBuffer::draw_fits(WIDTH, 5, 5));
    assert!(FrameBuffer::draw_fits(WIDTH, -5, i32::MAX));
    assert!(!FrameBuffer::draw_fits(WIDTH, 0, i32::MAX));
    assert!(!FrameBuffer::draw_fits(u32::MAX, 0, 0));
    assert!(FrameBuffer::draw_fits(WIDTH, i32::MAX, 0));
}
