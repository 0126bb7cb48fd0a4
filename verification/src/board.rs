//! Physical facts of the M5Stack CoreS3 Lite board: the panel geometry and
//! orientation, and the register encodings of the power and IO-expander
//! chips.

use vstd::prelude::*;

verus! {

/// Width of the LCD and of the touch panel's coordinate space.
pub const DISPLAY_WIDTH: usize = 320;
/// Height of the LCD and of the touch panel's coordinate space.
pub const DISPLAY_HEIGHT: usize = 240;
/// The panel is mounted upside down relative to its controller's native
/// orientation; drawing and touch share the rotated coordinate system.
pub const DISPLAY_ROTATED_180: bool = true;

/// Lowest DLDO1 voltage code used for the backlight, 2.6 V.
pub const LCD_BACKLIGHT_MIN_CODE: u8 = 0x15;
/// Highest DLDO1 voltage code used for the backlight, 3.3 V.
pub const LCD_BACKLIGHT_MAX_CODE: u8 = 0x1C;

/// Convert a point from the touch controller's native panel coordinates
/// into display coordinates: the panel is rotated by 180 degrees. The point
/// must lie on the panel.
pub fn logical_display_point(x: u16, y: u16) -> (r: (u16, u16))
    requires
        x < DISPLAY_WIDTH,
        y < DISPLAY_HEIGHT,
    ensures
        r.0 == DISPLAY_WIDTH - 1 - x,
        r.1 == DISPLAY_HEIGHT - 1 - y,
{
    (319 - x, 239 - y)
}

/// `percent` limited to 1 through 100.
pub open spec fn clamp_percent(percent: u8) -> int {
    if percent < 1 {
        1
    } else if percent > 100 {
        100
    } else {
        percent as int
    }
}

/// The DLDO1 voltage code for a backlight brightness: 1 % is 2.6 V (code
/// 0x15), 100 % is 3.3 V (code 0x1C), linear in between with rounding to the
/// nearest of the eight steps. Values outside 1 to 100 are clamped.
pub open spec fn spec_backlight_code(percent: u8) -> int {
    LCD_BACKLIGHT_MIN_CODE + ((clamp_percent(percent) - 1) * 7 + 49) / 99
}

/// The DLDO1 voltage code for a 1-100 % brightness. Dimming never switches
/// the rail off.
pub fn backlight_code(percent: u8) -> (r: u8)
    ensures
        r == spec_backlight_code(percent),
        LCD_BACKLIGHT_MIN_CODE <= r <= LCD_BACKLIGHT_MAX_CODE,
{
    let clamped: u8 = if percent < 1 {
        1
    } else if percent > 100 {
        100
    } else {
        percent
    };
    let steps: u16 = (LCD_BACKLIGHT_MAX_CODE - LCD_BACKLIGHT_MIN_CODE) as u16;
    let offset: u16 = (clamped - 1) as u16;
    let scaled: u16 = (offset * steps + 49) / 99;
    assert(scaled <= 7) by (nonlinear_arith)
        requires
            scaled == (offset * steps + 49) / 99,
            offset <= 99,
            steps == 7,
    ;
    LCD_BACKLIGHT_MIN_CODE + scaled as u8
}

/// Brighter never gives a lower voltage code.
pub proof fn lemma_backlight_monotonic(a: u8, b: u8)
    requires
        a <= b,
    ensures
        spec_backlight_code(a) <= spec_backlight_code(b),
{
    let x = (clamp_percent(a) - 1) * 7 + 49;
    let y = (clamp_percent(b) - 1) * 7 + 49;
    assert(x <= y);
    vstd::arithmetic::div_mod::lemma_div_is_ordered(x, y, 99);
}

/// A register value with the bits selected by `mask` taken from `value` and
/// the others kept from `current`.
pub open spec fn spec_merge_bits(current: u8, mask: u8, value: u8) -> u8 {
    (current & !mask) | (value & mask)
}

/// The new value of a register when only the bits selected by `mask` change
/// to those of `value`.
pub fn merge_bits(current: u8, mask: u8, value: u8) -> (r: u8)
    ensures
        r == spec_merge_bits(current, mask, value),
        r & mask == value & mask,
        r & !mask == current & !mask,
{
    let r = (current & !mask) | (value & mask);
    assert(r & mask == value & mask && r & !mask == current & !mask) by (bit_vector)
        requires
            r == (current & !mask) | (value & mask),
    ;
    r
}

} // verus!
