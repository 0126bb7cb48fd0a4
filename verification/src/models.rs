//! CPU0 application models: which view is active, and the refresh policy of
//! the data each view shows.
//!
//! The models own state and decide when to refresh; the presentation layer
//! only draws what they hand out. Time is given in milliseconds since boot
//! and never goes backwards.

use vstd::prelude::*;
use vstd::string::StringSliceAdditionalSpecFns;

use crate::audio::{self, AudioBlockInfo, LatestAudio, BLOCK_FRAMES, BLOCK_SAMPLES, CHANNELS};
use crate::logger::{LogStore, HISTORY_BYTES};
use crate::network;
use crate::service_inputs::{offered_info, offered_samples, AudioInput, ImuInput, ImuSnapshot, NetworkInput};
use crate::waveform::{WaveformFrame, AMPLITUDE_PIXELS, FRAMES_PER_POINT, POINTS};

verus! {

/// Refresh period of the waveform view.
pub const WAVEFORM_UPDATE_MS: u64 = 32;
/// Smallest peak used to scale the waveform, so silence stays flat.
pub const WAVEFORM_PEAK_FLOOR: u16 = 1024;
/// Refresh period of the IMU view.
pub const IMU_UI_UPDATE_MS: u64 = 40;
/// Refresh period of the network view.
pub const NETWORK_UI_UPDATE_MS: u64 = 200;
/// Refresh period of the log view.
pub const LOG_REFRESH_MS: u64 = 100;
/// Number of complete trailing log lines shown by the log view.
pub const LOG_VISIBLE_LINES: usize = 23;

/// The views of the application.
#[derive(Clone, Copy, Debug, PartialEq, Eq, Structural)]
pub enum ViewId {
    /// Nearby devices.
    Network,
    /// Orientation.
    Imu,
    /// Microphone waveform.
    Microphone,
    /// Speaker.
    Sound,
    /// Device log.
    Log,
}

/// The number of a view: 0 to 4 in navigation order.
pub open spec fn view_number(v: ViewId) -> i32 {
    match v {
        ViewId::Network => 0,
        ViewId::Imu => 1,
        ViewId::Microphone => 2,
        ViewId::Sound => 3,
        ViewId::Log => 4,
    }
}

/// The view numbered `n`, if there is one.
pub open spec fn view_of(n: i32) -> Option<ViewId> {
    if n == 0 {
        Some(ViewId::Network)
    } else if n == 1 {
        Some(ViewId::Imu)
    } else if n == 2 {
        Some(ViewId::Microphone)
    } else if n == 3 {
        Some(ViewId::Sound)
    } else if n == 4 {
        Some(ViewId::Log)
    } else {
        None
    }
}

impl ViewId {
    /// All views in navigation order.
    pub fn all() -> (r: [ViewId; 5])
        ensures
            forall|i: int| 0 <= i < 5 ==> view_number(#[trigger] r@[i]) == i,
    {
        [ViewId::Network, ViewId::Imu, ViewId::Microphone, ViewId::Sound, ViewId::Log]
    }

    /// The number of the view.
    pub fn as_i32(self) -> (r: i32)
        ensures
            r == view_number(self),
    {
        match self {
            ViewId::Network => 0,
            ViewId::Imu => 1,
            ViewId::Microphone => 2,
            ViewId::Sound => 3,
            ViewId::Log => 4,
        }
    }

    /// The view with number `value`, if there is one.
    pub fn from_i32(value: i32) -> (r: Option<ViewId>)
        ensures
            r == view_of(value),
    {
        match value {
            0 => Some(ViewId::Network),
            1 => Some(ViewId::Imu),
            2 => Some(ViewId::Microphone),
            3 => Some(ViewId::Sound),
            4 => Some(ViewId::Log),
            _ => None,
        }
    }
}

/// A change of the view on screen, from the one presented to the one the
/// model asks for.
#[derive(Clone, Copy, Debug)]
pub struct ViewTransition {
    /// The view presented so far.
    pub from: ViewId,
    /// The view to present next.
    pub to: ViewId,
}

impl ViewTransition {
    /// The transition owed when the model's view `requested` is not the view
    /// `presented` on screen; none when they agree.
    pub fn between(presented: ViewId, requested: ViewId) -> (r: Option<ViewTransition>)
        ensures
            r == (if requested != presented {
                Some(ViewTransition { from: presented, to: requested })
            } else {
                None
            }),
    {
        if requested != presented {
            Some(ViewTransition { from: presented, to: requested })
        } else {
            None
        }
    }
}

/// A view's number gives the view back, and every number from 0 to 4 is
/// the number of a view.
pub proof fn lemma_view_number_roundtrip(v: ViewId, n: i32)
    ensures
        view_of(view_number(v)) == Some(v),
        view_of(n) is Some <==> 0 <= n <= 4,
        view_of(n) matches Some(w) ==> view_number(w) == n,
{
}

/// `now - last` has reached `period`; time does not go backwards.
pub open spec fn due(now: u64, last: u64, period: u64) -> bool {
    now - last >= period
}

/// Presentation-sized IMU state, quantized to whole units.
#[derive(Clone, Copy, Debug, PartialEq, Eq, Structural)]
pub struct ImuDisplay {
    /// Roll in degrees.
    pub roll_deg: i32,
    /// Pitch in degrees.
    pub pitch_deg: i32,
    /// Magnetic heading in degrees.
    pub yaw_deg: i32,
    /// IMU status number: starting 0, running 1, degraded 2, fault 3.
    pub status: i32,
    /// Sensor read errors.
    pub read_errors: i32,
    /// Magnetometer errors.
    pub mag_errors: i32,
    /// Magnetometer status number: missing 0, learning 1, ready 2,
    /// disturbed 3.
    pub mag_status: i32,
    /// Magnetic field strength in microtesla.
    pub mag_field_ut: i32,
    /// Magnetometer calibration progress in percent.
    pub mag_calibration: i32,
    /// The gyroscope bias estimate has settled.
    pub gyro_bias_ready: bool,
}

/// The values shown before the first IMU snapshot: level, no heading,
/// starting, magnetometer missing.
pub open spec fn starting_display() -> ImuDisplay {
    ImuDisplay {
        roll_deg: 0,
        pitch_deg: 0,
        yaw_deg: 0,
        status: 0,
        read_errors: 0,
        mag_errors: 0,
        mag_status: 0,
        mag_field_ut: 0,
        mag_calibration: 0,
        gyro_bias_ready: false,
    }
}

impl ImuDisplay {
    /// Level, no heading, starting, magnetometer missing.
    pub fn starting() -> (r: ImuDisplay)
        ensures
            r == starting_display(),
    {
        ImuDisplay {
            roll_deg: 0,
            pitch_deg: 0,
            yaw_deg: 0,
            status: 0,
            read_errors: 0,
            mag_errors: 0,
            mag_status: 0,
            mag_field_ut: 0,
            mag_calibration: 0,
            gyro_bias_ready: false,
        }
    }
}

/// How the network view's model changes at `now` when `latest` is the
/// snapshot waiting: nothing happens before the refresh period has passed;
/// then the refresh time moves to `now`, and a waiting snapshot with a new
/// revision is shown and drawn.
pub open spec fn network_refreshed(
    before: NetworkModel,
    after: NetworkModel,
    now: u64,
    latest: Option<network::Snapshot>,
) -> bool {
    if !due(now, before.last_update_ms, NETWORK_UI_UPDATE_MS) {
        after == before
    } else if latest is Some && latest->0.revision != before.last_revision {
        after == (NetworkModel {
            display: latest,
            last_revision: latest->0.revision,
            last_update_ms: now,
            dirty: true,
        })
    } else {
        after == (NetworkModel { last_update_ms: now, ..before })
    }
}

/// The network view's model.
pub struct NetworkModel {
    /// The snapshot shown.
    pub display: Option<network::Snapshot>,
    /// Revision of that snapshot; `u32::MAX` before the first.
    pub last_revision: u32,
    /// When the last refresh was due.
    pub last_update_ms: u64,
    /// The view needs redrawing.
    pub dirty: bool,
}

impl NetworkModel {
    /// Nothing to show yet.
    pub fn new(now_ms: u64) -> (r: NetworkModel)
        ensures
            r.display is None,
            r.last_revision == u32::MAX,
            r.last_update_ms == now_ms,
            !r.dirty,
    {
        NetworkModel { display: None, last_revision: u32::MAX, last_update_ms: now_ms, dirty: false }
    }

    /// Redraw on the next frame, if there is anything to draw.
    pub fn mark_dirty(&mut self)
        ensures
            final(self).dirty == (old(self).dirty || old(self).display is Some),
            final(self).display == old(self).display,
            final(self).last_revision == old(self).last_revision,
            final(self).last_update_ms == old(self).last_update_ms,
    {
        if self.display.is_some() {
            self.dirty = true;
        }
    }

    /// Every `NETWORK_UI_UPDATE_MS`, take the newest snapshot and show it
    /// when its revision is new.
    pub fn update_if_due(&mut self, now_ms: u64, input: &mut NetworkInput)
        requires
            now_ms >= old(self).last_update_ms,
        ensures
            network_refreshed(*old(self), *final(self), now_ms, old(input).spec_latest()),
            final(input).spec_latest() == if due(now_ms, old(self).last_update_ms, NETWORK_UI_UPDATE_MS) {
                None
            } else {
                old(input).spec_latest()
            },
    {
        if now_ms - self.last_update_ms < NETWORK_UI_UPDATE_MS {
            return;
        }
        self.last_update_ms = now_ms;
        let snapshot = match input.take_latest() {
            Some(s) => s,
            None => {
                return;
            },
        };
        if snapshot.revision == self.last_revision {
            return;
        }
        self.last_revision = snapshot.revision;
        self.display = Some(snapshot);
        self.dirty = true;
    }

    /// The snapshot to draw, once per change.
    pub fn take_display(&mut self) -> (r: Option<network::Snapshot>)
        ensures
            r == if old(self).dirty {
                old(self).display
            } else {
                None
            },
            !final(self).dirty,
            final(self).display == old(self).display,
            final(self).last_revision == old(self).last_revision,
            final(self).last_update_ms == old(self).last_update_ms,
    {
        if !self.dirty {
            return None;
        }
        self.dirty = false;
        self.display
    }
}

/// How the IMU view's model changes at `now` when `latest` is the snapshot
/// waiting: nothing happens before the refresh period has passed; then the
/// refresh time moves to `now`, and a waiting snapshot with a new revision
/// is shown and drawn.
pub open spec fn imu_refreshed(before: ImuModel, after: ImuModel, now: u64, latest: Option<ImuSnapshot>) -> bool {
    if !due(now, before.last_update_ms, IMU_UI_UPDATE_MS) {
        after == before
    } else if latest is Some && latest->0.revision != before.last_revision {
        after == (ImuModel {
            display: latest->0.display,
            last_revision: latest->0.revision,
            last_update_ms: now,
            dirty: true,
        })
    } else {
        after == (ImuModel { last_update_ms: now, ..before })
    }
}

/// The IMU view's model.
pub struct ImuModel {
    /// The values shown.
    pub display: ImuDisplay,
    /// Revision of the snapshot they came from.
    pub last_revision: u32,
    /// When the last refresh was due.
    pub last_update_ms: u64,
    /// The view needs redrawing.
    pub dirty: bool,
}

impl ImuModel {
    /// Starting values, to be drawn.
    pub fn new(now_ms: u64) -> (r: ImuModel)
        ensures
            r.display == starting_display(),
            r.last_revision == 0,
            r.last_update_ms == now_ms,
            r.dirty,
    {
        ImuModel { display: ImuDisplay::starting(), last_revision: 0, last_update_ms: now_ms, dirty: true }
    }

    /// Redraw on the next frame.
    pub fn mark_dirty(&mut self)
        ensures
            *final(self) == (ImuModel { dirty: true, ..*old(self) }),
    {
        self.dirty = true;
    }

    /// Every `IMU_UI_UPDATE_MS`, take the newest IMU snapshot and show it
    /// when its revision is new.
    pub fn update_if_due(&mut self, now_ms: u64, input: &mut ImuInput)
        requires
            now_ms >= old(self).last_update_ms,
        ensures
            imu_refreshed(*old(self), *final(self), now_ms, old(input).spec_latest()),
            final(input).spec_latest() == if due(now_ms, old(self).last_update_ms, IMU_UI_UPDATE_MS) {
                None
            } else {
                old(input).spec_latest()
            },
    {
        if now_ms - self.last_update_ms < IMU_UI_UPDATE_MS {
            return;
        }
        self.last_update_ms = now_ms;
        let snapshot = match input.take_latest() {
            Some(s) => s,
            None => {
                return;
            },
        };
        if snapshot.revision == self.last_revision {
            return;
        }
        self.last_revision = snapshot.revision;
        self.display = snapshot.display;
        self.dirty = true;
    }

    /// The values to draw, once per change.
    pub fn take_display(&mut self) -> (r: Option<ImuDisplay>)
        ensures
            r == if old(self).dirty {
                Some(old(self).display)
            } else {
                None
            },
            *final(self) == (ImuModel { dirty: false, ..*old(self) }),
    {
        if !self.dirty {
            return None;
        }
        self.dirty = false;
        Some(self.display)
    }
}

/// `a / b` rounded toward zero, as integer division does.
pub open spec fn trunc_div(a: int, b: int) -> int {
    if a >= 0 {
        a / b
    } else {
        -((-a) / b)
    }
}

/// The waveform column for `sample` at full scale `scale`: its share of
/// `AMPLITUDE_PIXELS`, rounded toward zero and clamped to the canvas.
pub open spec fn spec_quantize(sample: i16, scale: i32) -> i8 {
    let q = trunc_div(sample * AMPLITUDE_PIXELS, scale as int);
    (if q < -AMPLITUDE_PIXELS {
        -AMPLITUDE_PIXELS
    } else if q > AMPLITUDE_PIXELS {
        AMPLITUDE_PIXELS as int
    } else {
        q
    }) as i8
}

/// The waveform column for `sample`; `scale` must be positive.
pub fn quantize_waveform(sample: i16, scale: i32) -> (r: i8)
    requires
        scale > 0,
    ensures
        r == spec_quantize(sample, scale),
        -AMPLITUDE_PIXELS <= r <= AMPLITUDE_PIXELS,
{
    let product: i32 = sample as i32 * AMPLITUDE_PIXELS;
    let q: i32 = if product >= 0 {
        product / scale
    } else {
        -((-product) / scale)
    };
    let clamped: i32 = if q < -AMPLITUDE_PIXELS {
        -AMPLITUDE_PIXELS
    } else if q > AMPLITUDE_PIXELS {
        AMPLITUDE_PIXELS
    } else {
        q
    };
    clamped as i8
}

/// The first sample of largest magnitude of channel `channel` among frames
/// `first` to `last - 1`; zero for no frame.
pub open spec fn loudest(samples: Seq<i16>, channel: int, first: int, last: int) -> i16
    decreases last - first,
{
    if last <= first {
        0
    } else {
        let previous = loudest(samples, channel, first, last - 1);
        let x = samples[(last - 1) * 2 + channel];
        if audio::abs16(x) > audio::abs16(previous) {
            x
        } else {
            previous
        }
    }
}

/// The column of `point` in channel `channel` for `samples`, at `scale`.
pub open spec fn column(samples: Seq<i16>, channel: int, point: int, scale: i32) -> i8 {
    spec_quantize(
        loudest(samples, channel, point * FRAMES_PER_POINT, (point + 1) * FRAMES_PER_POINT),
        scale,
    )
}

proof fn lemma_loudest_of_range(samples: Seq<i16>, channel: int, first: int, last: int)
    requires
        first < last,
    ensures
        exists|f: int|
            first <= f < last && #[trigger] samples[f * 2 + channel] == loudest(samples, channel, first, last)
                && forall|g: int|
                first <= g < last ==> audio::abs16(#[trigger] samples[g * 2 + channel]) <= audio::abs16(
                    samples[f * 2 + channel],
                ),
    decreases last - first,
{
    let x = samples[(last - 1) * 2 + channel];
    if last - 1 == first {
        assert(samples[first * 2 + channel] == loudest(samples, channel, first, last));
    } else {
        lemma_loudest_of_range(samples, channel, first, last - 1);
        let previous = loudest(samples, channel, first, last - 1);
        let f0 = choose|f: int|
            first <= f < last - 1 && #[trigger] samples[f * 2 + channel] == previous && forall|g: int|
                first <= g < last - 1 ==> audio::abs16(#[trigger] samples[g * 2 + channel])
                    <= audio::abs16(samples[f * 2 + channel]);
        if audio::abs16(x) > audio::abs16(previous) {
            assert(samples[(last - 1) * 2 + channel] == loudest(samples, channel, first, last));
        } else {
            assert(samples[f0 * 2 + channel] == loudest(samples, channel, first, last));
        }
    }
}

/// Each waveform column shows the loudest sample of its whole group: for
/// column `point` of a channel, some frame `f` of its group (frames
/// `point * FRAMES_PER_POINT` to `(point + 1) * FRAMES_PER_POINT - 1`) has a
/// sample whose magnitude no other frame of the group exceeds, and the
/// column is that sample quantized. So a loud sample in any frame of the
/// group, the last one included, shows in the column.
pub proof fn lemma_column_is_loudest_of_group(samples: Seq<i16>, channel: int, point: int, scale: i32)
    requires
        0 <= point < POINTS,
        channel == 0 || channel == 1,
    ensures
        exists|f: int|
            point * FRAMES_PER_POINT <= f < (point + 1) * FRAMES_PER_POINT && column(samples, channel, point, scale)
                == spec_quantize(#[trigger] samples[f * 2 + channel], scale) && forall|g: int|
                point * FRAMES_PER_POINT <= g < (point + 1) * FRAMES_PER_POINT ==> audio::abs16(
                    #[trigger] samples[g * 2 + channel],
                ) <= audio::abs16(samples[f * 2 + channel]),
{
    lemma_loudest_of_range(samples, channel, point * FRAMES_PER_POINT, (point + 1) * FRAMES_PER_POINT);
}

/// The scale of a channel: its peak, but at least `WAVEFORM_PEAK_FLOOR`.
pub open spec fn channel_scale(peak: u16) -> i32 {
    if peak > WAVEFORM_PEAK_FLOOR {
        peak as i32
    } else {
        WAVEFORM_PEAK_FLOOR as i32
    }
}

/// How the microphone view's model changes at `now` when the newest block
/// published is `block`, described by `info` (sequence zero: none yet).
/// Nothing happens before the refresh period has passed; then the refresh
/// time moves to `now` and a published block is copied. A block with a new
/// sequence recomputes every column and is drawn when a column changed.
pub open spec fn waveform_refreshed(
    before: WaveformModel,
    after: WaveformModel,
    now: u64,
    info: AudioBlockInfo,
    block: Seq<i16>,
) -> bool {
    if !due(now, before.last_update_ms, WAVEFORM_UPDATE_MS) {
        after == before
    } else if info.sequence == 0 {
        after == (WaveformModel { last_update_ms: now, ..before })
    } else {
        &&& after.samples@ == block
        &&& after.last_update_ms == now
        &&& if info.sequence == before.last_sequence {
            &&& after.frame == before.frame
            &&& after.dirty == before.dirty
            &&& after.last_sequence == before.last_sequence
        } else {
            &&& after.last_sequence == info.sequence
            &&& forall|p: int|
                0 <= p < POINTS ==> after.frame.left@[p] == column(
                    block,
                    0,
                    p,
                    channel_scale(info.peak_left),
                ) && after.frame.right@[p] == column(block, 1, p, channel_scale(info.peak_right))
            &&& after.dirty == (before.dirty || after.frame != before.frame)
        }
    }
}

/// The microphone view's model.
pub struct WaveformModel {
    /// The frame shown.
    pub frame: WaveformFrame,
    /// The last block copied.
    pub samples: [i16; BLOCK_SAMPLES],
    /// Sequence of that block.
    pub last_sequence: u32,
    /// When the last refresh was due.
    pub last_update_ms: u64,
    /// The view needs redrawing.
    pub dirty: bool,
}

impl WaveformModel {
    /// A flat frame, to be drawn.
    pub fn new(now_ms: u64) -> (r: WaveformModel)
        ensures
            forall|i: int| 0 <= i < POINTS ==> r.frame.left@[i] == 0 && r.frame.right@[i] == 0,
            r.last_sequence == 0,
            r.last_update_ms == now_ms,
            r.dirty,
    {
        WaveformModel {
            frame: WaveformFrame::silent(),
            samples: [0; BLOCK_SAMPLES],
            last_sequence: 0,
            last_update_ms: now_ms,
            dirty: true,
        }
    }

    /// Redraw on the next frame.
    pub fn mark_dirty(&mut self)
        ensures
            final(self).dirty,
            final(self).frame == old(self).frame,
            final(self).samples == old(self).samples,
            final(self).last_sequence == old(self).last_sequence,
            final(self).last_update_ms == old(self).last_update_ms,
    {
        self.dirty = true;
    }

    /// Recompute every column from the copied block; each channel is scaled
    /// by its peak, at least `WAVEFORM_PEAK_FLOOR`. Returns whether a column
    /// changed.
    pub fn update_frame(&mut self, info: AudioBlockInfo) -> (r: bool)
        ensures
            forall|p: int|
                0 <= p < POINTS ==> final(self).frame.left@[p] == column(
                    old(self).samples@,
                    0,
                    p,
                    channel_scale(info.peak_left),
                ) && final(self).frame.right@[p] == column(
                    old(self).samples@,
                    1,
                    p,
                    channel_scale(info.peak_right),
                ),
            r == (final(self).frame != old(self).frame),
            final(self).samples == old(self).samples,
            final(self).last_sequence == old(self).last_sequence,
            final(self).last_update_ms == old(self).last_update_ms,
            final(self).dirty == old(self).dirty,
    {
        let left_scale: i32 = if info.peak_left > WAVEFORM_PEAK_FLOOR {
            info.peak_left as i32
        } else {
            WAVEFORM_PEAK_FLOOR as i32
        };
        let right_scale: i32 = if info.peak_right > WAVEFORM_PEAK_FLOOR {
            info.peak_right as i32
        } else {
            WAVEFORM_PEAK_FLOOR as i32
        };
        let mut left = self.frame.left;
        let mut right = self.frame.right;
        let mut changed = false;
        let mut point: usize = 0;
        assert(left =~= self.frame.left && right =~= self.frame.right);
        while point < POINTS
            invariant
                point <= POINTS,
                self.samples@.len() == BLOCK_SAMPLES,
                left_scale == channel_scale(info.peak_left),
                right_scale == channel_scale(info.peak_right),
                forall|p: int|
                    0 <= p < point ==> left@[p] == column(self.samples@, 0, p, left_scale)
                        && right@[p] == column(self.samples@, 1, p, right_scale),
                forall|p: int| point <= p < POINTS ==> left@[p] == self.frame.left@[p] && right@[p] == self.frame.right@[p],
                changed == !(left =~= self.frame.left && right =~= self.frame.right),
            decreases POINTS - point,
        {
            let first = point * FRAMES_PER_POINT;
            let last = first + FRAMES_PER_POINT;
            let mut left_sample: i16 = 0;
            let mut right_sample: i16 = 0;
            let mut left_magnitude: u16 = 0;
            let mut right_magnitude: u16 = 0;
            let mut frame = first;
            while frame < last
                invariant
                    first <= frame <= last,
                    last == first + FRAMES_PER_POINT,
                    last <= BLOCK_FRAMES,
                    self.samples@.len() == BLOCK_SAMPLES,
                    left_sample == loudest(self.samples@, 0, first as int, frame as int),
                    right_sample == loudest(self.samples@, 1, first as int, frame as int),
                    left_magnitude == audio::abs16(left_sample),
                    right_magnitude == audio::abs16(right_sample),
                decreases last - frame,
            {
                let sample_index = frame * CHANNELS;
                let l = self.samples[sample_index];
                let r = self.samples[sample_index + 1];
                let l_abs = audio::unsigned_abs(l);
                if l_abs > left_magnitude {
                    left_magnitude = l_abs;
                    left_sample = l;
                }
                let r_abs = audio::unsigned_abs(r);
                if r_abs > right_magnitude {
                    right_magnitude = r_abs;
                    right_sample = r;
                }
                frame = frame + 1;
            }
            let left_pixel = quantize_waveform(left_sample, left_scale);
            let right_pixel = quantize_waveform(right_sample, right_scale);
            if left_pixel != left[point] {
                left[point] = left_pixel;
                changed = true;
            }
            if right_pixel != right[point] {
                right[point] = right_pixel;
                changed = true;
            }
            point = point + 1;
        }
        self.frame = WaveformFrame { left, right };
        changed
    }

    /// Every `WAVEFORM_UPDATE_MS`, copy the newest microphone block; when
    /// its sequence is new, recompute the frame and redraw if it changed.
    pub fn update_if_due(&mut self, now_ms: u64, input: &mut AudioInput, store: Option<&LatestAudio>)
        requires
            now_ms >= old(self).last_update_ms,
        ensures
            waveform_refreshed(
                *old(self),
                *final(self),
                now_ms,
                offered_info(store),
                offered_samples(store),
            ),
    {
        if now_ms - self.last_update_ms < WAVEFORM_UPDATE_MS {
            return;
        }
        self.last_update_ms = now_ms;
        let info = match input.copy_latest_interleaved(store, &mut self.samples) {
            Some(info) => info,
            None => {
                assert(self.samples =~= old(self).samples);
                return;
            },
        };
        if info.sequence == self.last_sequence {
            return;
        }
        self.last_sequence = info.sequence;
        if self.update_frame(info) {
            self.dirty = true;
        }
    }

    /// The frame to draw, once per change.
    pub fn take_frame(&mut self) -> (r: Option<WaveformFrame>)
        ensures
            r == if old(self).dirty {
                Some(old(self).frame)
            } else {
                None
            },
            !final(self).dirty,
            final(self).frame == old(self).frame,
            final(self).samples == old(self).samples,
            final(self).last_sequence == old(self).last_sequence,
            final(self).last_update_ms == old(self).last_update_ms,
    {
        if !self.dirty {
            return None;
        }
        self.dirty = false;
        Some(self.frame)
    }
}

/// The number of newline bytes in `s`.
pub open spec fn count_newlines(s: Seq<u8>) -> nat
    decreases s.len(),
{
    if s.len() == 0 {
        0
    } else {
        (if s[0] == crate::ring::NEWLINE {
            1nat
        } else {
            0nat
        }) + count_newlines(s.drop_first())
    }
}

/// `start` is where the newest `lines` complete lines of `text` begin: the
/// end of the text when no line is wanted or there is no text, the start of
/// the text when it holds no more newlines than that, and otherwise the
/// byte after the newline that is followed by exactly `lines` newlines.
pub open spec fn is_trailing_start(text: Seq<u8>, lines: nat, start: int) -> bool {
    if lines == 0 || text.len() == 0 {
        start == text.len()
    } else if count_newlines(text) <= lines {
        start == 0
    } else {
        &&& 0 < start <= text.len()
        &&& text[start - 1] == crate::ring::NEWLINE
        &&& count_newlines(text.skip(start)) == lines
    }
}

proof fn lemma_count_newlines_step(s: Seq<u8>, i: int)
    requires
        0 <= i < s.len(),
    ensures
        count_newlines(s.skip(i)) == count_newlines(s.skip(i + 1)) + (if s[i]
            == crate::ring::NEWLINE {
            1nat
        } else {
            0nat
        }),
{
    assert(s.skip(i).drop_first() =~= s.skip(i + 1));
}

proof fn lemma_count_newlines_suffix(s: Seq<u8>, j: int)
    requires
        0 <= j <= s.len(),
    ensures
        count_newlines(s.skip(j)) <= count_newlines(s),
    decreases j,
{
    if j == 0 {
        assert(s.skip(0) =~= s);
    } else {
        lemma_count_newlines_step(s, j - 1);
        lemma_count_newlines_suffix(s, j - 1);
    }
}

/// Where the newest `line_count` complete lines of `text` begin. Log
/// records always end in a newline, so such a start is also a character
/// boundary.
fn trailing_lines(text: &[u8], line_count: usize) -> (r: usize)
    ensures
        r <= text@.len(),
        is_trailing_start(text@, line_count as nat, r as int),
{
    if line_count == 0 || text.len() == 0 {
        return text.len();
    }
    let mut seen: usize = 0;
    let mut index: usize = text.len();
    assert(text@.skip(index as int) =~= Seq::<u8>::empty());
    while index > 0
        invariant
            index <= text@.len(),
            line_count > 0,
            seen <= line_count,
            seen == count_newlines(text@.skip(index as int)),
        decreases index,
    {
        let i = index - 1;
        proof {
            lemma_count_newlines_step(text@, i as int);
        }
        if text[i] == crate::ring::NEWLINE {
            if seen == line_count {
                proof {
                    lemma_count_newlines_suffix(text@, i as int);
                }
                return index;
            }
            seen = seen + 1;
        }
        index = i;
    }
    assert(text@.skip(0) =~= text@);
    0
}

/// The log view shows at most `lines` complete lines: the text from a
/// trailing start holds no more than `lines` newlines, and the start is
/// determined by the text and the number of lines.
pub proof fn lemma_trailing_lines_law(text: Seq<u8>, lines: nat, start: int, other: int)
    requires
        0 <= start <= text.len(),
        is_trailing_start(text, lines, start),
        is_trailing_start(text, lines, other),
    ensures
        count_newlines(text.skip(start)) <= lines,
        start == other,
{
    if lines == 0 || text.len() == 0 {
        assert(text.skip(text.len() as int) =~= Seq::<u8>::empty());
    } else if count_newlines(text) <= lines {
        assert(text.skip(0) =~= text);
    } else if start != other {
        if start < other {
            lemma_count_newlines_between(text, start, other);
        } else {
            lemma_count_newlines_between(text, other, start);
        }
    }
}

/// A newline at `b - 1` after `a` makes the suffix from `a` hold more
/// newlines than the suffix from `b`.
proof fn lemma_count_newlines_between(text: Seq<u8>, a: int, b: int)
    requires
        0 <= a < b <= text.len(),
        text[b - 1] == crate::ring::NEWLINE,
    ensures
        count_newlines(text.skip(a)) > count_newlines(text.skip(b)),
    decreases b - a,
{
    lemma_count_newlines_step(text, b - 1);
    if a < b - 1 {
        lemma_count_newlines_suffix_mono(text, a, b - 1);
    }
}

/// A longer suffix holds at least the newlines of a shorter one.
proof fn lemma_count_newlines_suffix_mono(text: Seq<u8>, a: int, b: int)
    requires
        0 <= a <= b <= text.len(),
    ensures
        count_newlines(text.skip(a)) >= count_newlines(text.skip(b)),
    decreases b - a,
{
    if a < b {
        lemma_count_newlines_step(text, a);
        lemma_count_newlines_suffix_mono(text, a + 1, b);
    }
}

/// The log view's model: a private copy of the log history and the byte
/// range of it that is shown.
pub struct LogModel {
    /// Snapshot storage, `HISTORY_BYTES` long.
    pub bytes: Vec<u8>,
    /// First shown byte.
    pub visible_start: usize,
    /// Number of shown bytes.
    pub visible_len: usize,
    /// Revision of the history shown; `u32::MAX` before the first.
    pub revision: u32,
    /// When the history was last checked.
    pub last_check_ms: u64,
    /// The view needs redrawing.
    pub dirty: bool,
}

/// How the log view's model changes when it refreshes from a history of
/// `history` at `revision`: nothing happens when that revision is shown;
/// otherwise the history is copied, and when the copy is text, its newest
/// `LOG_VISIBLE_LINES` lines are shown and drawn.
pub open spec fn log_refreshed(before: LogModel, after: LogModel, history: Seq<u8>, revision: u32) -> bool {
    if revision == before.revision {
        after == before
    } else {
        let n = if history.len() < before.bytes@.len() {
            history.len()
        } else {
            before.bytes@.len()
        };
        let text = history.take(n as int);
        &&& after.bytes@ == text + before.bytes@.skip(n as int)
        &&& after.last_check_ms == before.last_check_ms
        &&& if vstd::utf8::valid_utf8(text) {
            &&& is_trailing_start(text, LOG_VISIBLE_LINES as nat, after.visible_start as int)
            &&& after.visible_len == n - after.visible_start
            &&& after.revision == revision
            &&& after.dirty
        } else {
            &&& after.visible_start == before.visible_start
            &&& after.visible_len == before.visible_len
            &&& after.revision == before.revision
            &&& after.dirty == before.dirty
        }
    }
}

impl LogModel {
    /// The storage has its size and the shown range lies inside it.
    pub open spec fn wf(&self) -> bool {
        &&& self.bytes@.len() == HISTORY_BYTES
        &&& self.visible_start + self.visible_len <= HISTORY_BYTES
    }

    /// The bytes shown.
    pub open spec fn spec_visible(&self) -> Seq<u8> {
        self.bytes@.subrange(
            self.visible_start as int,
            self.visible_start + self.visible_len,
        )
    }

    /// Nothing shown, no revision yet, to be drawn.
    pub fn new(now_ms: u64) -> (r: LogModel)
        ensures
            r.wf(),
            r.bytes@ == Seq::new(HISTORY_BYTES as nat, |i: int| 0u8),
            r.visible_start == 0,
            r.visible_len == 0,
            r.revision == u32::MAX,
            r.last_check_ms == now_ms,
            r.dirty,
    {
        let mut bytes: Vec<u8> = Vec::new();
        let mut i: usize = 0;
        while i < HISTORY_BYTES
            invariant
                i <= HISTORY_BYTES,
                bytes@ == Seq::new(i as nat, |k: int| 0u8),
            decreases HISTORY_BYTES - i,
        {
            bytes.push(0);
            i = i + 1;
        }
        LogModel { bytes, visible_start: 0, visible_len: 0, revision: u32::MAX, last_check_ms: now_ms, dirty: true }
    }

    /// Redraw on the next frame.
    pub fn mark_dirty(&mut self)
        ensures
            *final(self) == (LogModel { dirty: true, ..*old(self) }),
    {
        self.dirty = true;
    }

    /// Take a new snapshot of `store` when its revision is not the one
    /// shown.
    pub fn refresh(&mut self, store: &LogStore)
        requires
            old(self).wf(),
        ensures
            final(self).wf(),
            log_refreshed(*old(self), *final(self), store.spec_history(), store.spec_revision()),
    {
        if store.revision() == self.revision {
            return;
        }
        let mut bytes: Vec<u8> = Vec::new();
        std::mem::swap(&mut bytes, &mut self.bytes);
        let snapshot = store.snapshot(bytes.as_mut_slice());
        match snapshot {
            Some((len, revision)) => {
                let text = vstd::slice::slice_subrange(bytes.as_slice(), 0, len);
                assert(text@ =~= store.spec_history().take(len as int));
                let start = trailing_lines(text, LOG_VISIBLE_LINES);
                self.bytes = bytes;
                self.visible_start = start;
                self.visible_len = len - start;
                self.revision = revision;
                self.dirty = true;
            },
            None => {
                self.bytes = bytes;
            },
        }
    }

    /// Every `LOG_REFRESH_MS`, refresh from `store`.
    pub fn update_if_due(&mut self, now_ms: u64, store: &LogStore)
        requires
            old(self).wf(),
            now_ms >= old(self).last_check_ms,
        ensures
            final(self).wf(),
            !due(now_ms, old(self).last_check_ms, LOG_REFRESH_MS) ==> *final(self) == *old(self),
            due(now_ms, old(self).last_check_ms, LOG_REFRESH_MS) ==> log_refreshed(
                LogModel { last_check_ms: now_ms, ..*old(self) },
                *final(self),
                store.spec_history(),
                store.spec_revision(),
            ),
    {
        if now_ms - self.last_check_ms < LOG_REFRESH_MS {
            return;
        }
        self.last_check_ms = now_ms;
        self.refresh(store);
    }

    /// The text to draw, once per change: the shown bytes, when they are
    /// valid UTF-8.
    pub fn take_text(&mut self) -> (r: Option<&str>)
        requires
            old(self).wf(),
        ensures
            final(self).wf(),
            *final(self) == (LogModel { dirty: false, ..*old(self) }),
            r is Some <==> old(self).dirty && vstd::utf8::valid_utf8(old(self).spec_visible()),
            r matches Some(s) ==> s.spec_bytes() == old(self).spec_visible(),
    {
        if !self.dirty {
            return None;
        }
        self.dirty = false;
        let end = self.visible_start + self.visible_len;
        let shown = vstd::slice::slice_subrange(self.bytes.as_slice(), self.visible_start, end);
        crate::logger::utf8_str(shown)
    }
}

/// The model after a redraw request for view `v`: that view's model is
/// drawn again on the next frame (the network view only once it has a
/// snapshot; the sound view has no model).
pub open spec fn redrawn(m: AppModel, v: ViewId) -> AppModel {
    match v {
        ViewId::Network => AppModel {
            network: NetworkModel {
                dirty: m.network.dirty || m.network.display is Some,
                ..m.network
            },
            ..m
        },
        ViewId::Imu => AppModel { imu: ImuModel { dirty: true, ..m.imu }, ..m },
        ViewId::Microphone => AppModel {
            waveform: WaveformModel { dirty: true, ..m.waveform },
            ..m
        },
        ViewId::Log => AppModel { log: LogModel { dirty: true, ..m.log }, ..m },
        ViewId::Sound => m,
    }
}

/// All application state the presentation layer reads: the active view and
/// the model of each view with data.
pub struct AppModel {
    /// The view on screen.
    pub active_view: ViewId,
    /// Nearby devices.
    pub network: NetworkModel,
    /// Orientation.
    pub imu: ImuModel,
    /// Microphone waveform.
    pub waveform: WaveformModel,
    /// Device log.
    pub log: LogModel,
}

impl AppModel {
    /// The log model is well formed.
    pub open spec fn wf(&self) -> bool {
        self.log.wf()
    }

    /// The log view is active and already shows `store`; the other views
    /// start empty.
    pub fn new(now_ms: u64, store: &LogStore) -> (r: AppModel)
        ensures
            r.wf(),
            r.active_view == ViewId::Log,
            r.network == (NetworkModel {
                display: None,
                last_revision: u32::MAX,
                last_update_ms: now_ms,
                dirty: false,
            }),
            r.imu == (ImuModel {
                display: starting_display(),
                last_revision: 0,
                last_update_ms: now_ms,
                dirty: true,
            }),
            forall|i: int|
                0 <= i < POINTS ==> r.waveform.frame.left@[i] == 0 && r.waveform.frame.right@[i] == 0,
            r.waveform.last_sequence == 0,
            r.waveform.last_update_ms == now_ms,
            r.waveform.dirty,
            exists|fresh: LogModel|
                {
                    &&& fresh.bytes@ == Seq::new(HISTORY_BYTES as nat, |i: int| 0u8)
                    &&& fresh.visible_start == 0
                    &&& fresh.visible_len == 0
                    &&& fresh.revision == u32::MAX
                    &&& fresh.last_check_ms == now_ms
                    &&& fresh.dirty
                    &&& #[trigger] log_refreshed(
                        fresh,
                        r.log,
                        store.spec_history(),
                        store.spec_revision(),
                    )
                },
    {
        let mut log = LogModel::new(now_ms);
        let ghost fresh = log;
        log.refresh(store);
        let r = AppModel {
            active_view: ViewId::Log,
            network: NetworkModel::new(now_ms),
            imu: ImuModel::new(now_ms),
            waveform: WaveformModel::new(now_ms),
            log,
        };
        assert(log_refreshed(fresh, r.log, store.spec_history(), store.spec_revision()));
        r
    }

    /// The view on screen.
    pub fn active_view(&self) -> (r: ViewId)
        ensures
            r == self.active_view,
    {
        self.active_view
    }

    /// Switch to the view numbered `raw_view` and draw it, unless there is
    /// no such view or it is already on screen.
    pub fn request_view(&mut self, raw_view: i32)
        ensures
            ({
                match view_of(raw_view) {
                    Some(v) => if v != old(self).active_view {
                        *final(self) == redrawn(AppModel { active_view: v, ..*old(self) }, v)
                    } else {
                        *final(self) == *old(self)
                    },
                    None => *final(self) == *old(self),
                }
            }),
    {
        if let Some(view) = ViewId::from_i32(raw_view) {
            if view != self.active_view {
                self.active_view = view;
                match view {
                    ViewId::Network => self.network.mark_dirty(),
                    ViewId::Imu => self.imu.mark_dirty(),
                    ViewId::Microphone => self.waveform.mark_dirty(),
                    ViewId::Log => self.log.mark_dirty(),
                    ViewId::Sound => {},
                }
            }
        }
    }

    /// Refresh the active view's data at `now_ms`.
    pub fn update(
        &mut self,
        now_ms: u64,
        network_input: &mut NetworkInput,
        imu_input: &mut ImuInput,
        audio_input: &mut AudioInput,
        audio_store: Option<&LatestAudio>,
        store: &LogStore,
    )
        requires
            old(self).wf(),
            match old(self).active_view {
                ViewId::Network => now_ms >= old(self).network.last_update_ms,
                ViewId::Imu => now_ms >= old(self).imu.last_update_ms,
                ViewId::Microphone => now_ms >= old(self).waveform.last_update_ms,
                ViewId::Log => now_ms >= old(self).log.last_check_ms,
                ViewId::Sound => true,
            },
        ensures
            final(self).wf(),
            final(self).active_view == old(self).active_view,
            if old(self).active_view == ViewId::Network {
                network_refreshed(old(self).network, final(self).network, now_ms, old(network_input).spec_latest())
            } else {
                final(self).network == old(self).network
            },
            final(network_input).spec_latest() == if old(self).active_view == ViewId::Network && due(
                now_ms,
                old(self).network.last_update_ms,
                NETWORK_UI_UPDATE_MS,
            ) {
                None
            } else {
                old(network_input).spec_latest()
            },
            if old(self).active_view == ViewId::Imu {
                imu_refreshed(old(self).imu, final(self).imu, now_ms, old(imu_input).spec_latest())
            } else {
                final(self).imu == old(self).imu
            },
            final(imu_input).spec_latest() == if old(self).active_view == ViewId::Imu && due(
                now_ms,
                old(self).imu.last_update_ms,
                IMU_UI_UPDATE_MS,
            ) {
                None
            } else {
                old(imu_input).spec_latest()
            },
            if old(self).active_view == ViewId::Microphone {
                waveform_refreshed(
                    old(self).waveform,
                    final(self).waveform,
                    now_ms,
                    offered_info(audio_store),
                    offered_samples(audio_store),
                )
            } else {
                final(self).waveform == old(self).waveform
            },
            if old(self).active_view == ViewId::Log && due(
                now_ms,
                old(self).log.last_check_ms,
                LOG_REFRESH_MS,
            ) {
                log_refreshed(
                    LogModel { last_check_ms: now_ms, ..old(self).log },
                    final(self).log,
                    store.spec_history(),
                    store.spec_revision(),
                )
            } else {
                final(self).log == old(self).log
            },
    {
        match self.active_view {
            ViewId::Network => self.network.update_if_due(now_ms, network_input),
            ViewId::Imu => self.imu.update_if_due(now_ms, imu_input),
            ViewId::Microphone => self.waveform.update_if_due(now_ms, audio_input, audio_store),
            ViewId::Log => self.log.update_if_due(now_ms, store),
            ViewId::Sound => {},
        }
    }

    /// The network snapshot to draw, once per change, while its view is on
    /// screen.
    pub fn take_network_display(&mut self) -> (r: Option<network::Snapshot>)
        ensures
            old(self).active_view != ViewId::Network ==> r is None && *final(self) == *old(self),
            old(self).active_view == ViewId::Network ==> {
                &&& r == if old(self).network.dirty {
                    old(self).network.display
                } else {
                    None
                }
                &&& *final(self) == (AppModel {
                    network: NetworkModel { dirty: false, ..old(self).network },
                    ..*old(self)
                })
            },
    {
        if self.active_view != ViewId::Network {
            return None;
        }
        self.network.take_display()
    }

    /// Hand the log text to `render`, once per change, while the log view is
    /// on screen and the shown bytes are valid UTF-8.
    pub fn with_log_text<R, F: FnOnce(&str) -> R>(&mut self, render: F) -> (r: Option<R>)
        requires
            old(self).wf(),
            forall|s: &str| #[trigger] render.requires((s,)),
        ensures
            final(self).wf(),
            old(self).active_view != ViewId::Log ==> r is None && *final(self) == *old(self),
            old(self).active_view == ViewId::Log ==> *final(self) == (AppModel {
                log: LogModel { dirty: false, ..old(self).log },
                ..*old(self)
            }),
            old(self).active_view == ViewId::Log ==> (r is Some <==> old(self).log.dirty
                && vstd::utf8::valid_utf8(old(self).log.spec_visible())),
            r matches Some(x) ==> exists|s: &str|
                #[trigger] s.spec_bytes() == old(self).log.spec_visible() && call_ensures(
                    render,
                    (s,),
                    x,
                ),
    {
        if self.active_view != ViewId::Log {
            return None;
        }
        match self.log.take_text() {
            Some(text) => {
                let x = render(text);
                assert(text.spec_bytes() == old(self).log.spec_visible() && call_ensures(render, (text,), x));
                let r = Some(x);
                assert(r matches Some(y) ==> exists|s: &str|
                #[trigger] s.spec_bytes() == old(self).log.spec_visible() && call_ensures(
                    render,
                    (s,),
                    y,
                ));
                r
            },
            None => None,
        }
    }

    /// The IMU values to draw, once per change, while its view is on
    /// screen.
    pub fn take_imu_display(&mut self) -> (r: Option<ImuDisplay>)
        ensures
            old(self).active_view != ViewId::Imu ==> r is None && *final(self) == *old(self),
            old(self).active_view == ViewId::Imu ==> {
                &&& r == if old(self).imu.dirty {
                    Some(old(self).imu.display)
                } else {
                    None
                }
                &&& *final(self) == (AppModel {
                    imu: ImuModel { dirty: false, ..old(self).imu },
                    ..*old(self)
                })
            },
    {
        if self.active_view != ViewId::Imu {
            return None;
        }
        self.imu.take_display()
    }

    /// After the presentation layer redrew the screen, draw the active view
    /// again on the next frame.
    pub fn note_slint_redraw(&mut self, redrawn_screen: bool)
        ensures
            redrawn_screen ==> *final(self) == redrawn(*old(self), old(self).active_view),
            !redrawn_screen ==> *final(self) == *old(self),
    {
        if redrawn_screen {
            match self.active_view {
                ViewId::Network => self.network.mark_dirty(),
                ViewId::Microphone => self.waveform.mark_dirty(),
                ViewId::Imu => self.imu.mark_dirty(),
                ViewId::Log => self.log.mark_dirty(),
                ViewId::Sound => {},
            }
        }
    }

    /// The waveform to draw, once per change, while the microphone view is
    /// on screen.
    pub fn take_waveform_frame(&mut self) -> (r: Option<WaveformFrame>)
        ensures
            old(self).active_view != ViewId::Microphone ==> r is None && *final(self) == *old(self),
            old(self).active_view == ViewId::Microphone ==> {
                &&& r == if old(self).waveform.dirty {
                    Some(old(self).waveform.frame)
                } else {
                    None
                }
                &&& *final(self) == (AppModel {
                    waveform: WaveformModel { dirty: false, ..old(self).waveform },
                    ..*old(self)
                })
            },
    {
        if self.active_view != ViewId::Microphone {
            return None;
        }
        self.waveform.take_frame()
    }
}

} // verus!
