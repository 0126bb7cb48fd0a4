//! Scanlines sent to the LCD: the navigation bar, the microphone traces,
//! the window commands and the big-endian pixel bytes.
//!
//! The firmware shell streams each line over SPI DMA; the content of every
//! line is computed here.

use vstd::prelude::*;

use crate::live_views::Palette;
use crate::models::{view_number, ViewId};
use crate::waveform::{CENTER_Y, POINTS};

verus! {

/// Width of the screen.
pub const SCREEN_WIDTH: usize = 320;
/// Height of the screen.
pub const SCREEN_HEIGHT: usize = 240;
/// Width of the navigation bar.
pub const NAV_WIDTH: usize = 44;
/// Height of one navigation button: the screen shared by the five views.
pub const NAV_BUTTON_HEIGHT: usize = 48;
/// DCS command that sets the column range.
pub const DCS_COLUMN_ADDRESS_SET: u8 = 0x2A;
/// DCS command that sets the row range.
pub const DCS_PAGE_ADDRESS_SET: u8 = 0x2B;
/// DCS command that starts a pixel write.
pub const DCS_MEMORY_WRITE: u8 = 0x2C;

/// The rows of the 16 by 16 icon of navigation button `b`, most significant
/// bit leftmost.
pub open spec fn nav_icon(b: int) -> Seq<u16> {
    if b == 0 {
        seq![0x0000u16, 0x0000, 0x0180, 0x03C0, 0x0660, 0x0C30, 0x1818, 0x0180, 0x0180, 0x1818, 0x0C30, 0x0660, 0x03C0, 0x0180, 0x0000, 0x0000]
    } else if b == 1 {
        seq![0x0180u16, 0x0180, 0x0180, 0x0180, 0x0180, 0x7FFE, 0x0180, 0x0180, 0x0180, 0x0180, 0x07E0, 0x0DB0, 0x198C, 0x0180, 0x0180, 0x0000]
    } else if b == 2 {
        seq![0x03C0u16, 0x0660, 0x0C30, 0x0C30, 0x0C30, 0x0C30, 0x0C30, 0x0C30, 0x0660, 0x03C0, 0x0180, 0x1FF8, 0x0180, 0x0180, 0x07E0, 0x0000]
    } else if b == 3 {
        seq![0x0000u16, 0x0300, 0x0700, 0x0F18, 0x7F0C, 0x7F06, 0x7F06, 0x7F06, 0x7F06, 0x7F06, 0x7F0C, 0x0F18, 0x0700, 0x0300, 0x0000, 0x0000]
    } else {
        seq![0x0000u16, 0x0000, 0x3FFC, 0x2004, 0x2FF4, 0x2004, 0x2FF4, 0x2004, 0x2FF4, 0x2004, 0x2FF4, 0x2004, 0x3FFC, 0x0000, 0x0000, 0x0000]
    }
}

fn nav_icon_row(b: usize, r: usize) -> (bits: u16)
    requires
        b < 5,
        r < 16,
    ensures
        bits == nav_icon(b as int)[r as int],
{
    let icons: [[u16; 16]; 5] = [
        [0x0000, 0x0000, 0x0180, 0x03C0, 0x0660, 0x0C30, 0x1818, 0x0180, 0x0180, 0x1818, 0x0C30, 0x0660, 0x03C0, 0x0180, 0x0000, 0x0000],
        [0x0180, 0x0180, 0x0180, 0x0180, 0x0180, 0x7FFE, 0x0180, 0x0180, 0x0180, 0x0180, 0x07E0, 0x0DB0, 0x198C, 0x0180, 0x0180, 0x0000],
        [0x03C0, 0x0660, 0x0C30, 0x0C30, 0x0C30, 0x0C30, 0x0C30, 0x0C30, 0x0660, 0x03C0, 0x0180, 0x1FF8, 0x0180, 0x0180, 0x07E0, 0x0000],
        [0x0000, 0x0300, 0x0700, 0x0F18, 0x7F0C, 0x7F06, 0x7F06, 0x7F06, 0x7F06, 0x7F06, 0x7F0C, 0x0F18, 0x0700, 0x0300, 0x0000, 0x0000],
        [0x0000, 0x0000, 0x3FFC, 0x2004, 0x2FF4, 0x2004, 0x2FF4, 0x2004, 0x2FF4, 0x2004, 0x2FF4, 0x2004, 0x3FFC, 0x0000, 0x0000, 0x0000],
    ];
    let row = icons[b];
    assert(row@ =~= nav_icon(b as int));
    row[r]
}

/// Bit `k` (from the least significant) of `bits` is set.
pub open spec fn bit_set(bits: u16, k: int) -> bool {
    (bits as int / vstd::arithmetic::power2::pow2(k as nat) as int) % 2 == 1
}

/// Pixel `k` of navigation bar row `y` with view `active` on screen: the
/// button's background (light blue when it is the active view's button,
/// dark blue otherwise), a dark blue edge in the last column, and the
/// button's icon in columns 14 to 29 of its rows 16 to 31 (white when
/// active, dark grey otherwise).
pub open spec fn nav_pixel(y: int, active: ViewId, p: Palette, k: int) -> u16 {
    let button = y / NAV_BUTTON_HEIGHT as int;
    let local_y = y % NAV_BUTTON_HEIGHT as int;
    let selected = view_number(active) == button;
    if k == NAV_WIDTH - 1 {
        p.dark_blue
    } else if 14 <= k < 30 && 16 <= local_y < 32 && bit_set(nav_icon(button)[local_y - 16], 15 - (k - 14)) {
        if selected {
            p.white
        } else {
            p.dark_gray
        }
    } else if selected {
        p.light_blue
    } else {
        p.dark_blue
    }
}

proof fn lemma_bit_test(bits: u16, j: u16)
    requires
        j < 16,
    ensures
        (bits & (1u16 << j) != 0) == bit_set(bits, j as int),
{
    vstd::bits::lemma_u16_shr_is_div(bits, j);
    vstd::bits::lemma_u16_pow2_no_overflow(j as nat);
    assert((bits & (1u16 << j) != 0) == ((bits >> j) % 2 == 1)) by (bit_vector)
        requires
            j < 16,
    ;
}

/// The view whose navigation button covers the screen point `x`, `y`:
/// inside the bar, the button of row `y`; none outside the bar or below the
/// last button.
pub fn navigation_hit(x: u16, y: u16) -> (r: Option<ViewId>)
    ensures
        r == if (x as int) < NAV_WIDTH {
            crate::models::view_of((y as int / NAV_BUTTON_HEIGHT as int) as i32)
        } else {
            None
        },
{
    if (x as usize) < NAV_WIDTH {
        let button = (y as usize) / NAV_BUTTON_HEIGHT;
        ViewId::from_i32(button as i32)
    } else {
        None
    }
}

/// Row `y` of the navigation bar.
pub fn navigation_line(y: usize, active: ViewId, p: Palette) -> (line: [u16; 44])
    requires
        y < SCREEN_HEIGHT,
    ensures
        forall|k: int| 0 <= k < NAV_WIDTH ==> #[trigger] line@[k] == nav_pixel(y as int, active, p, k),
{
    let button = y / NAV_BUTTON_HEIGHT;
    let selected = active.as_i32() == button as i32;
    let background = if selected {
        p.light_blue
    } else {
        p.dark_blue
    };
    let foreground = if selected {
        p.white
    } else {
        p.dark_gray
    };
    let mut line = [background; 44];
    line[NAV_WIDTH - 1] = p.dark_blue;
    let local_y = y % NAV_BUTTON_HEIGHT;
    if 16 <= local_y && local_y < 32 {
        let bits = nav_icon_row(button, local_y - 16);
        let mut icon_x: usize = 0;
        while icon_x < 16
            invariant
                icon_x <= 16,
                16 <= local_y < 32,
                button < 5,
                button == y / NAV_BUTTON_HEIGHT,
                local_y == y % NAV_BUTTON_HEIGHT,
                bits == nav_icon(button as int)[local_y - 16],
                selected == (view_number(active) == button),
                foreground == (if selected { p.white } else { p.dark_gray }),
                background == (if selected { p.light_blue } else { p.dark_blue }),
                line@[NAV_WIDTH - 1] == p.dark_blue,
                forall|k: int|
                    0 <= k < NAV_WIDTH - 1 && !(14 <= k < 14 + icon_x) ==> #[trigger] line@[k] == background,
                forall|k: int|
                    14 <= k < 14 + icon_x ==> #[trigger] line@[k] == if bit_set(bits, 15 - (k - 14)) {
                        foreground
                    } else {
                        background
                    },
            decreases 16 - icon_x,
        {
            let shift = (15 - icon_x) as u16;
            proof {
                lemma_bit_test(bits, shift);
            }
            if bits & (1u16 << shift) != 0 {
                line[14 + icon_x] = foreground;
            }
            icon_x = icon_x + 1;
        }
    }
    line
}

/// The screen row of column `point` of a trace: the centre line moved up
/// by the column's value.
pub open spec fn trace_row(samples: Seq<i8>, point: int) -> int {
    CENTER_Y - samples[point]
}

/// Row `local_y` crosses the trace segment that ends at column `point`:
/// the segment joins the previous column's row to this one's (the first
/// column joins itself).
pub open spec fn on_trace(samples: Seq<i8>, point: int, local_y: int) -> bool {
    let current = trace_row(samples, point);
    let previous = if point == 0 {
        current
    } else {
        trace_row(samples, point - 1)
    };
    let low = if current < previous {
        current
    } else {
        previous
    };
    let high = if current < previous {
        previous
    } else {
        current
    };
    low <= local_y <= high
}

/// Pixel `k` of row `local_y` of a waveform canvas: the trace (dark blue,
/// two pixels per column) where the row crosses it, else the centre line
/// (light grey) on the centre row, else white.
pub open spec fn waveform_pixel(samples: Seq<i8>, local_y: int, p: Palette, k: int) -> u16 {
    if on_trace(samples, k / 2, local_y) {
        p.dark_blue
    } else if local_y == CENTER_Y {
        p.light_gray
    } else {
        p.white
    }
}

/// Row `local_y` of a waveform canvas for the columns `samples`.
pub fn waveform_line(local_y: usize, samples: &[i8; 128], p: Palette) -> (line: [u16; 256])
    requires
        local_y < crate::waveform::CANVAS_HEIGHT,
    ensures
        forall|k: int| 0 <= k < 256 ==> #[trigger] line@[k] == waveform_pixel(samples@, local_y as int, p, k),
{
    let base = if local_y as i32 == CENTER_Y {
        p.light_gray
    } else {
        p.white
    };
    let mut line = [base; 256];
    let mut point: usize = 0;
    while point < POINTS
        invariant
            point <= POINTS,
            local_y < crate::waveform::CANVAS_HEIGHT,
            base == (if local_y == CENTER_Y { p.light_gray } else { p.white }),
            forall|k: int| 0 <= k < 2 * point ==> #[trigger] line@[k] == waveform_pixel(samples@, local_y as int, p, k),
            forall|k: int| 2 * point <= k < 256 ==> #[trigger] line@[k] == base,
        decreases POINTS - point,
    {
        let current_y = CENTER_Y - samples[point] as i32;
        let previous_y = if point == 0 {
            current_y
        } else {
            CENTER_Y - samples[point - 1] as i32
        };
        let low = if current_y < previous_y {
            current_y
        } else {
            previous_y
        };
        let high = if current_y < previous_y {
            previous_y
        } else {
            current_y
        };
        let y = local_y as i32;
        if y >= low && y <= high {
            line[2 * point] = p.dark_blue;
            line[2 * point + 1] = p.dark_blue;
        }
        assert(on_trace(samples@, point as int, local_y as int) == (y >= low && y <= high));
        assert forall|k: int| 0 <= k < 2 * point + 2 implies #[trigger] line@[k] == waveform_pixel(
            samples@,
            local_y as int,
            p,
            k,
        ) by {
            if k >= 2 * point {
                assert(k / 2 == point);
            }
        }
        point = point + 1;
    }
    line
}

/// The high and low byte of `v` as a 16-bit value.
pub open spec fn be_bytes(v: int) -> (u8, u8) {
    let w = v % 65536;
    ((w / 256) as u8, (w % 256) as u8)
}

fn be_pair(v: u16) -> (r: (u8, u8))
    ensures
        r == be_bytes(v as int),
{
    let hi = (v >> 8u16) as u8;
    let lo = (v & 0xff) as u8;
    assert(hi == v / 256 && lo == v % 256) by (bit_vector)
        requires
            hi == (v >> 8u16) as u8,
            lo == (v & 0xff) as u8,
    ;
    (hi, lo)
}

/// The column and page arguments that open a window on row `line` from
/// column `start` to column `end - 1`: each bound as a 16-bit value in two
/// big-endian bytes, first and last.
pub fn window_arguments(line: usize, start: usize, end: usize) -> (r: ([u8; 4], [u8; 4]))
    requires
        start < end,
    ensures
        ({
            let (x0h, x0l) = be_bytes(start as int);
            let (x1h, x1l) = be_bytes(end - 1);
            let (yh, yl) = be_bytes(line as int);
            r.0@ == seq![x0h, x0l, x1h, x1l] && r.1@ == seq![yh, yl, yh, yl]
        }),
{
    let x0 = (start % 65536) as u16;
    let x1 = ((end - 1) % 65536) as u16;
    let y = (line % 65536) as u16;
    let (x0h, x0l) = be_pair(x0);
    let (x1h, x1l) = be_pair(x1);
    let (yh, yl) = be_pair(y);
    let columns = [x0h, x0l, x1h, x1l];
    let pages = [yh, yl, yh, yl];
    assert(columns@ =~= seq![x0h, x0l, x1h, x1l]);
    assert(pages@ =~= seq![yh, yl, yh, yl]);
    (columns, pages)
}

/// The bytes sent for `pixels`: each pixel high byte first.
pub open spec fn pixel_bytes(pixels: Seq<u16>) -> Seq<u8> {
    Seq::new(
        2 * pixels.len(),
        |i: int|
            if i % 2 == 0 {
                (pixels[i / 2] / 256) as u8
            } else {
                (pixels[i / 2] % 256) as u8
            },
    )
}

/// Write the bytes for `pixels` to the front of `out` and return how many
/// were written.
pub fn encode_pixels(out: &mut [u8], pixels: &[u16]) -> (n: usize)
    requires
        2 * pixels@.len() <= old(out)@.len(),
    ensures
        n == 2 * pixels@.len(),
        final(out)@.len() == old(out)@.len(),
        final(out)@.take(n as int) == pixel_bytes(pixels@),
        final(out)@.skip(n as int) == old(out)@.skip(n as int),
{
    let total = out.len();
    assert(2 * pixels@.len() <= total);
    let byte_len = pixels.len() * 2;
    let mut i: usize = 0;
    while i < pixels.len()
        invariant
            i <= pixels@.len(),
            byte_len == 2 * pixels@.len(),
            byte_len <= out@.len(),
            out@.len() == old(out)@.len(),
            forall|k: int| 0 <= k < 2 * i ==> #[trigger] out@[k] == pixel_bytes(pixels@)[k],
            forall|k: int| 2 * i <= k < out@.len() ==> #[trigger] out@[k] == old(out)@[k],
        decreases pixels@.len() - i,
    {
        let (hi, lo) = be_pair(pixels[i]);
        out[2 * i] = hi;
        out[2 * i + 1] = lo;
        assert forall|k: int| 0 <= k < 2 * i + 2 implies #[trigger] out@[k] == pixel_bytes(pixels@)[k] by {
            if k >= 2 * i {
                assert(k / 2 == i);
            }
        }
        i = i + 1;
    }
    assert(out@.take(byte_len as int) =~= pixel_bytes(pixels@));
    assert(out@.skip(byte_len as int) =~= old(out)@.skip(byte_len as int));
    byte_len
}

} // verus!
