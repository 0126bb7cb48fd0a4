//! The content framebuffer of the live views and its raster primitives.
//!
//! Continuously changing content is rasterised into one fixed RGB565
//! framebuffer right of the navigation bar. Text is drawn by the firmware
//! shell on top of the shapes drawn here.

use vstd::prelude::*;

use crate::models::trunc_div;
use vstd::arithmetic::div_mod::{lemma_fundamental_div_mod, lemma_fundamental_div_mod_converse};

verus! {

/// First screen column of the content area.
pub const CONTENT_X: usize = 44;
/// Width of the content area.
pub const WIDTH: usize = 276;
/// Height of the content area.
pub const HEIGHT: usize = 240;
/// Pixels of the content area.
pub const PIXELS: usize = 66240;

/// The six theme colours the views use, as RGB565 values.
#[derive(Clone, Copy, Debug, PartialEq, Eq, Structural)]
pub struct Palette {
    pub white: u16,
    pub black: u16,
    pub dark_blue: u16,
    pub light_blue: u16,
    pub dark_gray: u16,
    pub light_gray: u16,
}

/// The column of pixel index `i`.
pub open spec fn col(i: int) -> int {
    i % (WIDTH as int)
}

/// The row of pixel index `i`.
pub open spec fn row(i: int) -> int {
    i / (WIDTH as int)
}

/// `s` with every pixel in columns `x0` to `x1 - 1` of rows `y0` to
/// `y1 - 1` set to `raw`.
pub open spec fn painted(s: Seq<u16>, x0: int, x1: int, y0: int, y1: int, raw: u16) -> Seq<u16> {
    Seq::new(s.len(), |i: int| if x0 <= col(i) < x1 && y0 <= row(i) < y1 { raw } else { s[i] })
}

/// The smaller of `a` and `b`.
pub open spec fn min_of(a: int, b: int) -> int {
    if a <= b {
        a
    } else {
        b
    }
}

/// `s` after filling the rectangle at `x`, `y` of `w` by `h` pixels,
/// clipped to the framebuffer; nothing when its corner lies outside.
pub open spec fn spec_fill_rect(s: Seq<u16>, x: int, y: int, w: int, h: int, raw: u16) -> Seq<u16> {
    if x >= WIDTH || y >= HEIGHT {
        s
    } else {
        painted(s, x, min_of(x + w, WIDTH as int), y, min_of(y + h, HEIGHT as int), raw)
    }
}

/// One RGB565 framebuffer of `WIDTH` by `HEIGHT` pixels, row by row.
pub struct Framebuffer {
    pixels: Vec<u16>,
}

impl Framebuffer {
    /// The pixels, row by row.
    pub closed spec fn spec_pixels(&self) -> Seq<u16> {
        self.pixels@
    }

    /// The buffer has its size.
    pub open spec fn wf(&self) -> bool {
        self.spec_pixels().len() == PIXELS
    }

    /// A buffer filled with `background`.
    pub fn new(background: u16) -> (r: Framebuffer)
        ensures
            r.wf(),
            r.spec_pixels() == Seq::new(PIXELS as nat, |i: int| background),
    {
        let mut pixels: Vec<u16> = Vec::new();
        let mut i: usize = 0;
        while i < PIXELS
            invariant
                i <= PIXELS,
                pixels@ == Seq::new(i as nat, |k: int| background),
            decreases PIXELS - i,
        {
            pixels.push(background);
            i = i + 1;
        }
        Framebuffer { pixels }
    }

    /// The pixels, row by row.
    pub fn pixels(&self) -> (r: &[u16])
        ensures
            r@ == self.spec_pixels(),
    {
        self.pixels.as_slice()
    }

    /// Set every pixel to `raw`.
    pub fn clear(&mut self, raw: u16)
        requires
            old(self).wf(),
        ensures
            final(self).wf(),
            final(self).spec_pixels() == Seq::new(PIXELS as nat, |i: int| raw),
    {
        let mut i: usize = 0;
        while i < self.pixels.len()
            invariant
                i <= self.pixels@.len(),
                self.pixels@.len() == PIXELS,
                forall|k: int| 0 <= k < i ==> self.pixels@[k] == raw,
            decreases self.pixels@.len() - i,
        {
            self.pixels.set(i, raw);
            i = i + 1;
        }
        assert(self.pixels@ =~= Seq::new(PIXELS as nat, |i: int| raw));
    }

    /// Set columns `x0` to `x1 - 1` of row `r`.
    fn fill_span(&mut self, r: usize, x0: usize, x1: usize, raw: u16)
        requires
            old(self).wf(),
            r < HEIGHT,
            x0 <= x1 <= WIDTH,
        ensures
            final(self).wf(),
            final(self).spec_pixels() == painted(
                old(self).spec_pixels(),
                x0 as int,
                x1 as int,
                r as int,
                r + 1,
                raw,
            ),
    {
        let ghost start = self.pixels@;
        let mut xx = x0;
        assert(self.pixels@ =~= painted(start, x0 as int, x0 as int, r as int, r + 1, raw));
        while xx < x1
            invariant
                x0 <= xx <= x1 <= WIDTH,
                r < HEIGHT,
                start.len() == PIXELS,
                self.pixels@ == painted(start, x0 as int, xx as int, r as int, r + 1, raw),
            decreases x1 - xx,
        {
            let index = r * WIDTH + xx;
            let ghost before = self.pixels@;
            self.pixels.set(index, raw);
            proof {
                lemma_fundamental_div_mod_converse(index as int, WIDTH as int, r as int, xx as int);
                assert forall|i: int| 0 <= i < PIXELS implies #[trigger] self.pixels@[i] == painted(
                    start,
                    x0 as int,
                    xx + 1,
                    r as int,
                    r + 1,
                    raw,
                )[i] by {
                    lemma_fundamental_div_mod(i, WIDTH as int);
                }
                assert(self.pixels@ =~= painted(start, x0 as int, xx + 1, r as int, r + 1, raw));
            }
            xx = xx + 1;
        }
    }

    /// Fill the rectangle at `x`, `y` of `width` by `height` pixels, clipped
    /// to the buffer; nothing when its corner lies outside.
    pub fn fill_rect(&mut self, x: usize, y: usize, width: usize, height: usize, raw: u16)
        requires
            old(self).wf(),
            x < WIDTH && y < HEIGHT ==> x + width <= usize::MAX && y + height <= usize::MAX,
        ensures
            final(self).wf(),
            final(self).spec_pixels() == spec_fill_rect(
                old(self).spec_pixels(),
                x as int,
                y as int,
                width as int,
                height as int,
                raw,
            ),
    {
        if x >= WIDTH || y >= HEIGHT {
            return;
        }
        let x_end = if x + width < WIDTH {
            x + width
        } else {
            WIDTH
        };
        let y_end = if y + height < HEIGHT {
            y + height
        } else {
            HEIGHT
        };
        let ghost start = self.pixels@;
        let mut yy = y;
        assert(self.pixels@ =~= painted(start, x as int, x_end as int, y as int, y as int, raw));
        while yy < y_end
            invariant
                y <= yy <= y_end <= HEIGHT,
                x <= x_end <= WIDTH,
                start.len() == PIXELS,
                self.wf(),
                self.spec_pixels() == painted(start, x as int, x_end as int, y as int, yy as int, raw),
            decreases y_end - yy,
        {
            self.fill_span(yy, x, x_end, raw);
            assert(self.spec_pixels() =~= painted(start, x as int, x_end as int, y as int, yy + 1, raw));
            yy = yy + 1;
        }
    }

    /// A horizontal line of `width` pixels from `x`, `y`.
    fn hline(&mut self, x: usize, y: usize, width: usize, raw: u16)
        requires
            old(self).wf(),
            x < WIDTH && y < HEIGHT ==> x + width <= usize::MAX,
        ensures
            final(self).wf(),
            final(self).spec_pixels() == spec_fill_rect(
                old(self).spec_pixels(),
                x as int,
                y as int,
                width as int,
                1,
                raw,
            ),
    {
        self.fill_rect(x, y, width, 1, raw);
    }

    /// A vertical line of `height` pixels from `x`, `y`.
    fn vline(&mut self, x: usize, y: usize, height: usize, raw: u16)
        requires
            old(self).wf(),
            x < WIDTH && y < HEIGHT ==> y + height <= usize::MAX,
        ensures
            final(self).wf(),
            final(self).spec_pixels() == spec_fill_rect(
                old(self).spec_pixels(),
                x as int,
                y as int,
                1,
                height as int,
                raw,
            ),
    {
        self.fill_rect(x, y, 1, height, raw);
    }

    /// Set the pixel at `x`, `y` when it lies inside the buffer.
    pub fn draw_pixel(&mut self, x: i32, y: i32, raw: u16)
        requires
            old(self).wf(),
        ensures
            final(self).wf(),
            final(self).spec_pixels() == if 0 <= x < WIDTH && 0 <= y < HEIGHT {
                old(self).spec_pixels().update(y * WIDTH + x, raw)
            } else {
                old(self).spec_pixels()
            },
    {
        if x < 0 || y < 0 {
            return;
        }
        let xu = x as usize;
        let yu = y as usize;
        if xu < WIDTH && yu < HEIGHT {
            self.pixels.set(yu * WIDTH + xu, raw);
        }
    }
}

/// Left edge of the attitude indicator.
pub const ATTITUDE_X: usize = 6;
/// Top of the attitude indicator.
pub const ATTITUDE_Y: usize = 56;
/// Width of the attitude indicator.
pub const ATTITUDE_W: usize = 264;
/// Height of the attitude indicator.
pub const ATTITUDE_H: usize = 140;
/// Left edge of the compass strip.
pub const COMPASS_X: usize = 6;
/// Top of the compass strip.
pub const COMPASS_Y: usize = 202;
/// Width of the compass strip.
pub const COMPASS_W: usize = 264;
/// Height of the compass strip.
pub const COMPASS_H: usize = 32;

/// `v` limited to `lo` to `hi`.
pub open spec fn clamp(v: int, lo: int, hi: int) -> int {
    if v < lo {
        lo
    } else if v > hi {
        hi
    } else {
        v
    }
}

fn clamp_i32(v: i32, lo: i32, hi: i32) -> (r: i32)
    requires
        lo <= hi,
    ensures
        r == clamp(v as int, lo as int, hi as int),
{
    if v < lo {
        lo
    } else if v > hi {
        hi
    } else {
        v
    }
}

fn div_toward_zero(a: i32, b: i32) -> (r: i32)
    requires
        b > 0,
        a > i32::MIN,
    ensures
        r == trunc_div(a as int, b as int),
{
    if a >= 0 {
        a / b
    } else {
        -((-a) / b)
    }
}

/// The row, within the attitude indicator, where the ground starts in
/// column `local_x`: the centre row moved down by four fifths of the pitch
/// and tilted by the roll, each rounded toward zero, limited to the
/// indicator. Roll and pitch are already limited to 45 and 40 degrees.
pub open spec fn horizon_row(roll: int, pitch: int, local_x: int) -> int {
    clamp(
        (ATTITUDE_H / 2) as int + trunc_div(pitch * 4, 5) + trunc_div(
            roll * (local_x - (ATTITUDE_W / 2) as int),
            300,
        ),
        0,
        ATTITUDE_H as int,
    )
}

/// `s` with the ground of the attitude indicator drawn in columns up to
/// `columns - 1`.
pub open spec fn ground_upto(s: Seq<u16>, roll: int, pitch: int, columns: int, raw: u16) -> Seq<u16> {
    Seq::new(
        s.len(),
        |i: int|
            if ATTITUDE_X <= col(i) < ATTITUDE_X + columns && ATTITUDE_Y + horizon_row(
                roll,
                pitch,
                col(i) - ATTITUDE_X,
            ) <= row(i) < ATTITUDE_Y + ATTITUDE_H {
                raw
            } else {
                s[i]
            },
    )
}

/// The column of the roll marker: above the centre, moved by the roll
/// scaled by 21/20 (rounded toward zero), kept inside the indicator.
pub open spec fn roll_marker_x(roll: int) -> int {
    clamp(
        (ATTITUDE_X + ATTITUDE_W / 2) as int + trunc_div(roll * 21, 20) - 2,
        ATTITUDE_X as int,
        (ATTITUDE_X + ATTITUDE_W - 5) as int,
    )
}

/// `s` after drawing the shapes of the attitude indicator for `roll_deg`
/// and `pitch_deg`: sky, ground below the horizon, the frame, the fixed
/// reticle, and the roll marker.
pub open spec fn spec_attitude(s: Seq<u16>, roll_deg: i32, pitch_deg: i32, p: Palette) -> Seq<u16> {
    let roll = clamp(roll_deg as int, -45, 45);
    let pitch = clamp(pitch_deg as int, -40, 40);
    let (x, y, w, h) = (ATTITUDE_X as int, ATTITUDE_Y as int, ATTITUDE_W as int, ATTITUDE_H as int);
    let cx = x + w / 2;
    let cy = y + h / 2;
    let sky = spec_fill_rect(s, x, y, w, h, p.light_blue);
    let ground = ground_upto(sky, roll, pitch, w, p.dark_gray);
    let f1 = spec_fill_rect(ground, x, y, w, 1, p.light_gray);
    let f2 = spec_fill_rect(f1, x, y + h - 1, w, 1, p.light_gray);
    let f3 = spec_fill_rect(f2, x, y, 1, h, p.light_gray);
    let f4 = spec_fill_rect(f3, x + w - 1, y, 1, h, p.light_gray);
    let r1 = spec_fill_rect(f4, cx - 36, cy, 26, 1, p.white);
    let r2 = spec_fill_rect(r1, cx + 10, cy, 26, 1, p.white);
    let r3 = spec_fill_rect(r2, cx, cy - 5, 1, 11, p.white);
    let r4 = spec_fill_rect(r3, cx - 20, cy - 23, 40, 1, p.white);
    let r5 = spec_fill_rect(r4, cx - 12, cy + 22, 24, 1, p.white);
    spec_fill_rect(r5, roll_marker_x(roll), y + 5, 5, 10, p.white)
}

impl Framebuffer {
    /// Draw the ground of the attitude indicator below the horizon.
    fn draw_ground(&mut self, roll: i32, pitch: i32, raw: u16)
        requires
            old(self).wf(),
            -45 <= roll <= 45,
            -40 <= pitch <= 40,
        ensures
            final(self).wf(),
            final(self).spec_pixels() == ground_upto(
                old(self).spec_pixels(),
                roll as int,
                pitch as int,
                ATTITUDE_W as int,
                raw,
            ),
    {
        let ghost start = self.spec_pixels();
        let center_x: i32 = (ATTITUDE_W / 2) as i32;
        let center_y: i32 = (ATTITUDE_H / 2) as i32;
        let mut local_x: usize = 0;
        assert(self.spec_pixels() =~= ground_upto(start, roll as int, pitch as int, 0, raw));
        while local_x < ATTITUDE_W
            invariant
                local_x <= ATTITUDE_W,
                -45 <= roll <= 45,
                -40 <= pitch <= 40,
                center_x == ATTITUDE_W / 2,
                center_y == ATTITUDE_H / 2,
                start.len() == PIXELS,
                self.wf(),
                self.spec_pixels() == ground_upto(start, roll as int, pitch as int, local_x as int, raw),
            decreases ATTITUDE_W - local_x,
        {
            let x = local_x as i32;
            let pitch_offset = div_toward_zero(pitch * 4, 5);
            let d = x - center_x;
            assert(-5940 <= roll * d <= 5940) by (nonlinear_arith)
                requires
                    -45 <= roll <= 45,
                    -132 <= d <= 132,
            ;
            let roll_offset = div_toward_zero(roll * d, 300);
            let horizon = clamp_i32(center_y + pitch_offset + roll_offset, 0, ATTITUDE_H as i32);
            assert(horizon == horizon_row(roll as int, pitch as int, local_x as int));
            let top = ATTITUDE_Y + horizon as usize;
            let ghost before = self.spec_pixels();
            self.fill_rect(ATTITUDE_X + local_x, top, 1, ATTITUDE_H - horizon as usize, raw);
            assert(self.spec_pixels() =~= ground_upto(
                start,
                roll as int,
                pitch as int,
                local_x + 1,
                raw,
            ));
            local_x = local_x + 1;
        }
    }

    /// Draw the shapes of the attitude indicator; its captions are drawn on
    /// top by the caller.
    pub fn draw_attitude(&mut self, roll_deg: i32, pitch_deg: i32, p: Palette)
        requires
            old(self).wf(),
        ensures
            final(self).wf(),
            final(self).spec_pixels() == spec_attitude(old(self).spec_pixels(), roll_deg, pitch_deg, p),
    {
        let x = ATTITUDE_X;
        let y = ATTITUDE_Y;
        let w = ATTITUDE_W;
        let h = ATTITUDE_H;
        self.fill_rect(x, y, w, h, p.light_blue);
        let roll = clamp_i32(roll_deg, -45, 45);
        let pitch = clamp_i32(pitch_deg, -40, 40);
        self.draw_ground(roll, pitch, p.dark_gray);
        self.hline(x, y, w, p.light_gray);
        self.hline(x, y + h - 1, w, p.light_gray);
        self.vline(x, y, h, p.light_gray);
        self.vline(x + w - 1, y, h, p.light_gray);
        let cx = x + w / 2;
        let cy = y + h / 2;
        self.hline(cx - 36, cy, 26, p.white);
        self.hline(cx + 10, cy, 26, p.white);
        self.vline(cx, cy - 5, 11, p.white);
        self.hline(cx - 20, cy - 23, 40, p.white);
        self.hline(cx - 12, cy + 22, 24, p.white);
        let roll_x = clamp_i32(
            cx as i32 + div_toward_zero(roll * 21, 20) - 2,
            x as i32,
            (x + w - 5) as i32,
        );
        self.fill_rect(roll_x as usize, y + 5, 5, 10, p.white);
    }
}

/// `target - yaw` turned into the range -180 to 180 by whole turns; a
/// half-turn difference stays positive when it was positive.
pub open spec fn is_heading_delta(target: int, yaw: int, r: int) -> bool {
    let d = target - yaw;
    &&& (d - r) % 360 == 0
    &&& -180 <= r <= 180
    &&& r == 180 ==> d >= 180
    &&& r == -180 ==> d <= -180
}

/// The compass difference is determined by the two headings: any two
/// values that meet its description are equal.
pub proof fn lemma_heading_delta_unique(target: int, yaw: int, r1: int, r2: int)
    requires
        is_heading_delta(target, yaw, r1),
        is_heading_delta(target, yaw, r2),
    ensures
        r1 == r2,
{
    let d = target - yaw;
    assert((r1 - r2) % 360 == 0) by {
        vstd::arithmetic::div_mod::lemma_fundamental_div_mod(d - r1, 360);
        vstd::arithmetic::div_mod::lemma_fundamental_div_mod(d - r2, 360);
        vstd::arithmetic::div_mod::lemma_mod_multiples_basic((d - r2) / 360 - (d - r1) / 360, 360);
    }
    if r1 != r2 {
        assert(r1 - r2 == 360 || r2 - r1 == 360) by {
            vstd::arithmetic::div_mod::lemma_fundamental_div_mod(r1 - r2, 360);
        }
    }
}

/// The signed angle from heading `yaw` to heading `target`, in degrees.
pub fn wrap_heading_delta(target: i32, yaw: i32) -> (r: i32)
    requires
        i32::MIN <= target - yaw <= i32::MAX,
    ensures
        is_heading_delta(target as int, yaw as int, r as int),
{
    let mut delta = target - yaw;
    let ghost d = target - yaw;
    while delta > 180
        invariant
            (d - delta) % 360 == 0,
            delta <= d,
            d > 180 ==> delta > -180,
            d <= 180 ==> delta == d,
        decreases delta + 180,
    {
        delta = delta - 360;
    }
    while delta < -180
        invariant
            (d - delta) % 360 == 0,
            delta <= 180,
            -180 <= d <= 180 ==> delta == d,
            d > 180 ==> delta > -180,
            d < -180 ==> delta < 180,
        decreases 180 - delta,
    {
        delta = delta + 360;
    }
    delta
}

/// Where a compass label for `heading` starts, seen at heading `yaw`: the
/// strip's centre moved by 58/100 pixel per degree of difference (rounded
/// toward zero), less half a character; none when it falls outside the
/// strip.
pub open spec fn spec_compass_label_x(delta: int) -> Option<i32> {
    let x = (COMPASS_X + COMPASS_W / 2) as int + trunc_div(delta * 58, 100) - 3;
    if x >= COMPASS_X - 6 && x < COMPASS_X + COMPASS_W {
        Some(x as i32)
    } else {
        None
    }
}

/// Where the compass label for `heading` is drawn at heading `yaw`, if it
/// is visible.
pub fn compass_label_x(heading: i32, yaw: i32) -> (r: Option<i32>)
    requires
        i32::MIN <= heading - yaw <= i32::MAX,
    ensures
        exists|delta: int| is_heading_delta(heading as int, yaw as int, delta) && r == spec_compass_label_x(delta),
{
    let delta = wrap_heading_delta(heading, yaw);
    let center = (COMPASS_X + COMPASS_W / 2) as i32;
    let x = center + div_toward_zero(delta * 58, 100) - 3;
    let r = if x >= COMPASS_X as i32 - 6 && x < (COMPASS_X + COMPASS_W) as i32 {
        Some(x)
    } else {
        None
    };
    assert(is_heading_delta(heading as int, yaw as int, delta as int) && r == spec_compass_label_x(
        delta as int,
    ));
    r
}

/// `s` after drawing the shapes of the compass strip: background, frame,
/// scale line and the fixed heading marker.
pub open spec fn spec_compass(s: Seq<u16>, p: Palette) -> Seq<u16> {
    let (x, y, w, h) = (COMPASS_X as int, COMPASS_Y as int, COMPASS_W as int, COMPASS_H as int);
    let b = spec_fill_rect(s, x, y, w, h, p.white);
    let f1 = spec_fill_rect(b, x, y, w, 1, p.light_gray);
    let f2 = spec_fill_rect(f1, x, y + h - 1, w, 1, p.light_gray);
    let f3 = spec_fill_rect(f2, x, y, 1, h, p.light_gray);
    let f4 = spec_fill_rect(f3, x + w - 1, y, 1, h, p.light_gray);
    let scale = spec_fill_rect(f4, x + 8, y + 19, w - 16, 1, p.light_gray);
    spec_fill_rect(scale, x + w / 2 - 2, y + 16, 4, 13, p.dark_blue)
}

/// `s` after drawing the IMU view's shapes: a white page, the dark header
/// panel, the attitude indicator and the compass strip.
pub open spec fn spec_imu_shapes(s: Seq<u16>, roll_deg: i32, pitch_deg: i32, p: Palette) -> Seq<u16> {
    let page = Seq::new(s.len(), |i: int| p.white);
    let header = spec_fill_rect(page, 6, 6, (WIDTH - 12) as int, 44, p.dark_blue);
    spec_compass(spec_attitude(header, roll_deg, pitch_deg, p), p)
}

/// `s` after drawing one waveform panel with its top at `y` and its white
/// canvas at row `canvas_y`: a black panel with a dark grey border.
pub open spec fn spec_waveform_panel(s: Seq<u16>, y: int, canvas_y: int, p: Palette) -> Seq<u16> {
    let (x, w, h) = (4int, (WIDTH - 8) as int, 114int);
    let panel = spec_fill_rect(s, x, y, w, h, p.black);
    let b1 = spec_fill_rect(panel, x, y, w, 1, p.dark_gray);
    let b2 = spec_fill_rect(b1, x, y + h - 1, w, 1, p.dark_gray);
    let b3 = spec_fill_rect(b2, x, y, 1, h, p.dark_gray);
    let b4 = spec_fill_rect(b3, x + w - 1, y, 1, h, p.dark_gray);
    spec_fill_rect(
        b4,
        (crate::waveform::CANVAS_X - CONTENT_X) as int,
        canvas_y,
        crate::waveform::CANVAS_WIDTH as int,
        crate::waveform::CANVAS_HEIGHT as int,
        p.white,
    )
}

impl Framebuffer {
    /// Draw the shapes of the compass strip; its labels are drawn on top by
    /// the caller at `compass_label_x`.
    pub fn draw_compass(&mut self, p: Palette)
        requires
            old(self).wf(),
        ensures
            final(self).wf(),
            final(self).spec_pixels() == spec_compass(old(self).spec_pixels(), p),
    {
        let x = COMPASS_X;
        let y = COMPASS_Y;
        let w = COMPASS_W;
        let h = COMPASS_H;
        self.fill_rect(x, y, w, h, p.white);
        self.hline(x, y, w, p.light_gray);
        self.hline(x, y + h - 1, w, p.light_gray);
        self.vline(x, y, h, p.light_gray);
        self.vline(x + w - 1, y, h, p.light_gray);
        self.hline(x + 8, y + 19, w - 16, p.light_gray);
        self.fill_rect(x + w / 2 - 2, y + 16, 4, 13, p.dark_blue);
    }

    /// Draw the shapes of the IMU view for `roll_deg` and `pitch_deg`; the
    /// texts are drawn on top by the caller.
    pub fn render_imu_shapes(&mut self, roll_deg: i32, pitch_deg: i32, p: Palette)
        requires
            old(self).wf(),
        ensures
            final(self).wf(),
            final(self).spec_pixels() == spec_imu_shapes(old(self).spec_pixels(), roll_deg, pitch_deg, p),
    {
        self.clear(p.white);
        self.fill_rect(6, 6, WIDTH - 12, 44, p.dark_blue);
        self.draw_attitude(roll_deg, pitch_deg, p);
        self.draw_compass(p);
    }

    /// A white page.
    pub fn render_blank(&mut self, p: Palette)
        requires
            old(self).wf(),
        ensures
            final(self).wf(),
            final(self).spec_pixels() == Seq::new(PIXELS as nat, |i: int| p.white),
    {
        self.clear(p.white);
    }

    fn draw_waveform_panel(&mut self, y: usize, canvas_y: usize, p: Palette)
        requires
            old(self).wf(),
            y < HEIGHT,
            canvas_y < HEIGHT,
        ensures
            final(self).wf(),
            final(self).spec_pixels() == spec_waveform_panel(old(self).spec_pixels(), y as int, canvas_y as int, p),
    {
        let x: usize = 4;
        let w: usize = WIDTH - 8;
        let h: usize = 114;
        self.fill_rect(x, y, w, h, p.black);
        self.hline(x, y, w, p.dark_gray);
        self.hline(x, y + h - 1, w, p.dark_gray);
        self.vline(x, y, h, p.dark_gray);
        self.vline(x + w - 1, y, h, p.dark_gray);
        self.fill_rect(
            crate::waveform::CANVAS_X - CONTENT_X,
            canvas_y,
            crate::waveform::CANVAS_WIDTH,
            crate::waveform::CANVAS_HEIGHT,
            p.white,
        );
    }

    /// The microphone page: a white page with the two channels' panels; the
    /// panel captions are drawn on top by the caller.
    pub fn render_microphone_shell(&mut self, p: Palette)
        requires
            old(self).wf(),
        ensures
            final(self).wf(),
            final(self).spec_pixels() == spec_waveform_panel(
                spec_waveform_panel(
                    Seq::new(PIXELS as nat, |i: int| p.white),
                    4,
                    crate::waveform::LEFT_CANVAS_Y as int,
                    p,
                ),
                122,
                crate::waveform::RIGHT_CANVAS_Y as int,
                p,
            ),
    {
        self.clear(p.white);
        self.draw_waveform_panel(4, crate::waveform::LEFT_CANVAS_Y, p);
        self.draw_waveform_panel(122, crate::waveform::RIGHT_CANVAS_Y, p);
    }
}

/// The caption of an IMU status number.
pub fn status_text(status: i32) -> (r: &'static str)
    ensures
        r == (if status == 3 {
            "FAULT"
        } else if status == 2 {
            "DEGRADED"
        } else if status == 1 {
            "RUNNING"
        } else {
            "STARTING"
        }),
{
    match status {
        3 => "FAULT",
        2 => "DEGRADED",
        1 => "RUNNING",
        _ => "STARTING",
    }
}

/// The magnetometer caption of the IMU header.
#[derive(Clone, Copy, Debug, PartialEq, Eq, Structural)]
pub enum MagCaption {
    /// Ready: the field strength in microtesla.
    Field(i32),
    /// Learning: the calibration progress in percent.
    Calibrating(i32),
    /// Disturbed.
    Disturbed,
    /// Missing.
    Missing,
}

/// The caption for a magnetometer status number: ready (2) shows the
/// field, learning (1) the calibration progress, disturbed (3) says so,
/// and any other number reads as missing.
pub fn mag_caption(mag_status: i32, field_ut: i32, calibration: i32) -> (r: MagCaption)
    ensures
        r == (if mag_status == 2 {
            MagCaption::Field(field_ut)
        } else if mag_status == 1 {
            MagCaption::Calibrating(calibration)
        } else if mag_status == 3 {
            MagCaption::Disturbed
        } else {
            MagCaption::Missing
        }),
{
    match mag_status {
        2 => MagCaption::Field(field_ut),
        1 => MagCaption::Calibrating(calibration),
        3 => MagCaption::Disturbed,
        _ => MagCaption::Missing,
    }
}

/// The footer of the attitude indicator for a magnetometer status number.
pub fn attitude_footer(mag_status: i32, gyro_bias_ready: bool) -> (r: &'static str)
    ensures
        r == (if mag_status == 1 {
            "Rotate through all axes - calibrating magnetometer"
        } else if mag_status == 3 {
            "Magnetic disturbance - yaw correction paused"
        } else if mag_status == 0 {
            "BMM150 unavailable - gyro yaw fallback"
        } else if gyro_bias_ready {
            "Magnetic heading - gyro bias ready"
        } else {
            "Magnetic heading - gyro bias learning"
        }),
{
    match mag_status {
        1 => "Rotate through all axes - calibrating magnetometer",
        3 => "Magnetic disturbance - yaw correction paused",
        0 => "BMM150 unavailable - gyro yaw fallback",
        _ => if gyro_bias_ready {
            "Magnetic heading - gyro bias ready"
        } else {
            "Magnetic heading - gyro bias learning"
        },
    }
}

} // verus!
