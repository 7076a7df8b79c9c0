use epd_display::display::{Display, Step, FRAME_BYTES};
use epd_display::framebuffer::Framebuffer;

#[test]
fn new_frame_is_white() {
    let fb = Framebuffer::new();
    assert_eq!(fb.len(), FRAME_BYTES);
    assert!(fb.as_bytes().iter().all(|b| *b == 0xFF));
}

#[test]
fn setting_pixel_nine_zero_touches_bit_six_of_byte_one() {
    let mut fb = Framebuffer::new();
    fb.set_pixel(9, 0, false);
    assert_eq!(fb.as_bytes()[1], 0xFF & !(1 << 6));
    assert_eq!(fb.as_bytes()[1], 0b1011_1111);
    assert!(fb.as_bytes().iter().enumerate().all(|(i, b)| i == 1 || *b == 0xFF));
    fb.set_pixel(9, 0, true);
    assert_eq!(fb.as_bytes()[1], 0xFF);
}

#[test]
fn pixel_layout_is_row_major_msb_first() {
    let mut fb = Framebuffer::new();
    fb.set_pixel(0, 1, false);
    assert_eq!(fb.as_bytes()[25], 0x7F);
    fb.set_pixel(199, 199, false);
    assert_eq!(fb.as_bytes()[FRAME_BYTES - 1], 0xFE);
}

#[test]
fn pixels_off_the_panel_are_dropped() {
    let mut fb = Framebuffer::new();
    fb.set_pixel(-1, 0, false);
    fb.set_pixel(200, 0, false);
    fb.set_pixel(0, 200, false);
    fb.set_pixel(0, -3, false);
    assert!(fb.as_bytes().iter().all(|b| *b == 0xFF));
}

#[test]
fn flush_draws_the_whole_panel() {
    let fb = Framebuffer::new();
    let ready = Display { power_is_on: true, initialized: true, initial_refresh: false, initial_write: false };
    let plan = fb.flush(&ready);
    assert_eq!(plan, ready.draw_image(0, 0, 200, 200));
    assert_eq!(plan.iter().filter(|s| **s == Step::WriteBitmap).count(), 2);
}
