use hack_and_hike::live_views::{
    attitude_footer, compass_label_x, mag_caption, status_text, wrap_heading_delta, Framebuffer,
    MagCaption, Palette,
    ATTITUDE_H, ATTITUDE_W, ATTITUDE_X, ATTITUDE_Y, HEIGHT, PIXELS, WIDTH,
};
use hack_and_hike::models::ViewId;
use hack_and_hike::screen::{
    encode_pixels, navigation_hit, navigation_line, waveform_line, window_arguments,
};

const PALETTE: Palette = Palette {
    white: 0xFFFF,
    black: 0x0000,
    dark_blue: 0x0010,
    light_blue: 0x841F,
    dark_gray: 0x4208,
    light_gray: 0xC618,
};

fn at(fb: &Framebuffer, x: usize, y: usize) -> u16 {
    fb.pixels()[y * WIDTH + x]
}

#[test]
fn framebuffer_fill_is_clipped() {
    let mut fb = Framebuffer::new(PALETTE.white);
    assert_eq!(fb.pixels().len(), PIXELS);
    fb.fill_rect(WIDTH - 2, HEIGHT - 1, 10, 10, 7);
    assert_eq!(at(&fb, WIDTH - 2, HEIGHT - 1), 7);
    assert_eq!(at(&fb, WIDTH - 1, HEIGHT - 1), 7);
    assert_eq!(at(&fb, WIDTH - 3, HEIGHT - 1), PALETTE.white);
    assert_eq!(at(&fb, WIDTH - 2, HEIGHT - 2), PALETTE.white);
    fb.fill_rect(WIDTH, 0, 5, 5, 9);
    assert!(fb.pixels().iter().all(|p| *p != 9));
    fb.draw_pixel(-1, 3, 5);
    fb.draw_pixel(3, 4, 5);
    assert_eq!(at(&fb, 3, 4), 5);
    fb.render_blank(PALETTE);
    assert!(fb.pixels().iter().all(|p| *p == PALETTE.white));
}

#[test]
fn attitude_level_horizon_is_centered() {
    let mut fb = Framebuffer::new(PALETTE.white);
    fb.draw_attitude(0, 0, PALETTE);
    let x = ATTITUDE_X + 40;
    assert_eq!(at(&fb, x, ATTITUDE_Y + 69), PALETTE.light_blue);
    assert_eq!(at(&fb, x, ATTITUDE_Y + 70), PALETTE.dark_gray);
    assert_eq!(at(&fb, x, ATTITUDE_Y), PALETTE.light_gray);
    assert_eq!(at(&fb, ATTITUDE_X, ATTITUDE_Y + 10), PALETTE.light_gray);
    assert_eq!(at(&fb, ATTITUDE_X + ATTITUDE_W / 2, ATTITUDE_Y + ATTITUDE_H / 2), PALETTE.white);
    assert_eq!(at(&fb, ATTITUDE_X + ATTITUDE_W / 2 - 2, ATTITUDE_Y + 5), PALETTE.white);
    assert_eq!(at(&fb, 0, 0), PALETTE.white);
}

#[test]
fn attitude_pitch_and_roll_move_horizon() {
    let mut fb = Framebuffer::new(PALETTE.white);
    fb.draw_attitude(0, 40, PALETTE);
    let x = ATTITUDE_X + 40;
    assert_eq!(at(&fb, x, ATTITUDE_Y + 101), PALETTE.light_blue);
    assert_eq!(at(&fb, x, ATTITUDE_Y + 102), PALETTE.dark_gray);

    let mut tilted = Framebuffer::new(PALETTE.white);
    tilted.draw_attitude(90, 0, PALETTE);
    let left = ATTITUDE_X + 1;
    let right = ATTITUDE_X + ATTITUDE_W - 2;
    assert_eq!(at(&tilted, left, ATTITUDE_Y + 50), PALETTE.light_blue);
    assert_eq!(at(&tilted, left, ATTITUDE_Y + 51), PALETTE.dark_gray);
    assert_eq!(at(&tilted, right, ATTITUDE_Y + 88), PALETTE.light_blue);
    assert_eq!(at(&tilted, right, ATTITUDE_Y + 89), PALETTE.dark_gray);
}

#[test]
fn imu_shapes_and_compass() {
    let mut fb = Framebuffer::new(0);
    fb.render_imu_shapes(0, 0, PALETTE);
    assert_eq!(at(&fb, 10, 10), PALETTE.dark_blue);
    assert_eq!(at(&fb, 2, 2), PALETTE.white);
    assert_eq!(at(&fb, 6 + 132, 202 + 20), PALETTE.dark_blue);
    assert_eq!(at(&fb, 6 + 20, 202 + 19), PALETTE.light_gray);
    assert_eq!(at(&fb, 6 + 20, 202 + 10), PALETTE.white);
}

#[test]
fn microphone_shell_panels() {
    let mut fb = Framebuffer::new(0);
    fb.render_microphone_shell(PALETTE);
    assert_eq!(at(&fb, 4, 4), PALETTE.dark_gray);
    assert_eq!(at(&fb, 6, 6), PALETTE.black);
    assert_eq!(at(&fb, 10, 20), PALETTE.white);
    assert_eq!(at(&fb, 10, 138), PALETTE.white);
    assert_eq!(at(&fb, 1, 1), PALETTE.white);
}

#[test]
fn heading_delta_wraps() {
    assert_eq!(wrap_heading_delta(0, 90), -90);
    assert_eq!(wrap_heading_delta(270, 0), -90);
    assert_eq!(wrap_heading_delta(0, 180), -180);
    assert_eq!(wrap_heading_delta(180, 0), 180);
    assert_eq!(wrap_heading_delta(0, -720), 0);
    assert_eq!(wrap_heading_delta(540, 0), 180);
    assert_eq!(wrap_heading_delta(-540, 0), -180);
}

#[test]
fn compass_labels() {
    assert_eq!(compass_label_x(0, 0), Some(135));
    assert_eq!(compass_label_x(90, 0), Some(135 + 52));
    assert_eq!(compass_label_x(270, 0), Some(135 - 52));
    assert_eq!(compass_label_x(180, 0), Some(135 + 104));
    assert_eq!(compass_label_x(0, 90), Some(135 - 52));
}

#[test]
fn captions() {
    assert_eq!(status_text(3), "FAULT");
    assert_eq!(status_text(1), "RUNNING");
    assert_eq!(status_text(7), "STARTING");
    assert_eq!(attitude_footer(1, false), "Rotate through all axes - calibrating magnetometer");
    assert_eq!(attitude_footer(2, true), "Magnetic heading - gyro bias ready");
    assert_eq!(attitude_footer(2, false), "Magnetic heading - gyro bias learning");
}

#[test]
fn navigation_rows() {
    let row = navigation_line(0, ViewId::Network, PALETTE);
    assert!(row[..43].iter().all(|p| *p == PALETTE.light_blue));
    assert_eq!(row[43], PALETTE.dark_blue);
    let other = navigation_line(60, ViewId::Network, PALETTE);
    assert_eq!(other[0], PALETTE.dark_blue);
    let icon = navigation_line(48 + 16 + 5, ViewId::Imu, PALETTE);
    assert_eq!(icon[13], PALETTE.light_blue);
    assert_eq!(icon[14], PALETTE.light_blue);
    assert!(icon[15..29].iter().all(|p| *p == PALETTE.white));
    assert_eq!(icon[29], PALETTE.light_blue);
    let icon_off = navigation_line(48 + 16, ViewId::Log, PALETTE);
    assert_eq!(icon_off[14 + 7], PALETTE.dark_gray);
    assert_eq!(icon_off[14], PALETTE.dark_blue);
}

#[test]
fn waveform_rows() {
    let mut samples = [0i8; 128];
    samples[1] = 10;
    let center = waveform_line(48, &samples, PALETTE);
    assert_eq!(center[0], PALETTE.dark_blue);
    assert_eq!(center[1], PALETTE.dark_blue);
    assert_eq!(center[2], PALETTE.dark_blue);
    assert_eq!(center[4], PALETTE.dark_blue);
    let above = waveform_line(40, &samples, PALETTE);
    assert_eq!(above[0], PALETTE.white);
    assert_eq!(above[2], PALETTE.dark_blue);
    assert_eq!(above[3], PALETTE.dark_blue);
    assert_eq!(above[4], PALETTE.dark_blue);
    assert_eq!(above[6], PALETTE.white);
    let empty = waveform_line(10, &[0i8; 128], PALETTE);
    assert!(empty.iter().all(|p| *p == PALETTE.white));
}

#[test]
fn window_and_pixel_bytes() {
    let (columns, pages) = window_arguments(300, 44, 320);
    assert_eq!(columns, [0, 44, 1, 63]);
    assert_eq!(pages, [1, 44, 1, 44]);
    let mut out = [0xAAu8; 7];
    let n = encode_pixels(&mut out, &[0x1234, 0xABCD, 0x00FF]);
    assert_eq!(n, 6);
    assert_eq!(out, [0x12, 0x34, 0xAB, 0xCD, 0x00, 0xFF, 0xAA]);
}

#[test]
fn navigation_buttons_are_hit_by_row() {
    assert_eq!(navigation_hit(10, 0), Some(ViewId::Network));
    assert_eq!(navigation_hit(43, 47), Some(ViewId::Network));
    assert_eq!(navigation_hit(0, 48), Some(ViewId::Imu));
    assert_eq!(navigation_hit(20, 239), Some(ViewId::Log));
    assert_eq!(navigation_hit(44, 100), None);
    assert_eq!(navigation_hit(5, 240), None);
}

#[test]
fn magnetometer_caption_follows_status() {
    assert_eq!(mag_caption(2, 48, 100), MagCaption::Field(48));
    assert_eq!(mag_caption(1, 48, 37), MagCaption::Calibrating(37));
    assert_eq!(mag_caption(3, 48, 37), MagCaption::Disturbed);
    assert_eq!(mag_caption(0, 48, 37), MagCaption::Missing);
}
