//! Integer side of the BMI270 + BMM150 orientation service: status values,
//! the magnetometer's factory trim and data frame, sensor-time steps, and
//! the rules that decide the magnetometer's status.
//!
//! The floating-point fusion and compensation run in the firmware shell;
//! they hand the decisions they need here as plain booleans.

use vstd::prelude::*;

use crate::audio::{i16_from_le, le_i16};

verus! {

/// Mask of the BMI270's 24-bit sensor-time counter (25.6 kHz).
pub const SENSOR_TIME_MASK: u32 = 0x00FF_FFFF;
/// Longest step between samples that is integrated as measured (50 ms).
pub const MAX_FUSION_SAMPLE_GAP_TICKS: u32 = 1280;
/// Host acquisition rate.
pub const DEFAULT_SENSOR_HZ: u32 = 100;
/// Step integrated after a timing gap: one nominal sample period (10 ms).
pub const NOMINAL_FUSION_TICKS: u32 = 256;
/// Consecutive good calibrated vectors before the magnetometer may define
/// north.
pub const MAG_GOOD_SAMPLES_TO_READY: u8 = 8;
/// Consecutive bad vectors before the magnetometer is disturbed.
pub const MAG_BAD_SAMPLES_TO_DISTURBED: u8 = 30;
/// Consecutive read errors before the IMU is reinitialised.
pub const MAX_CONSECUTIVE_READ_ERRORS: u8 = 10;
/// Interval between attempts to bring back a missing magnetometer.
pub const MAG_RETRY_MS: u64 = 5000;
/// Age after which magnetometer data counts as missing.
pub const MAG_STALE_MS: u64 = 1000;
/// Raw X/Y value that marks an overflow.
pub const OVERFLOW_XY: i16 = -4096;
/// Raw Z value that marks an overflow.
pub const OVERFLOW_Z: i16 = -16384;

/// State of the IMU service.
#[derive(Clone, Copy, Debug, PartialEq, Eq, Structural)]
pub enum Status {
    /// Initialising.
    Starting,
    /// Producing orientation with a usable magnetometer state.
    Running,
    /// Producing orientation without a trustworthy heading, or after a read
    /// error.
    Degraded,
    /// Initialisation failed or reads keep failing.
    Fault,
}

/// The number of a status: 0 to 3 in declaration order.
pub open spec fn status_number(s: Status) -> i32 {
    match s {
        Status::Starting => 0,
        Status::Running => 1,
        Status::Degraded => 2,
        Status::Fault => 3,
    }
}

impl Status {
    /// The number of the status.
    pub fn as_i32(self) -> (r: i32)
        ensures
            r == status_number(self),
    {
        match self {
            Status::Starting => 0,
            Status::Running => 1,
            Status::Degraded => 2,
            Status::Fault => 3,
        }
    }
}

/// State of the magnetometer.
#[derive(Clone, Copy, Debug, PartialEq, Eq, Structural)]
pub enum MagStatus {
    /// Not present, or no fresh data.
    Missing,
    /// Calibrating.
    Learning,
    /// Calibrated and trusted for heading.
    Ready,
    /// Persistently implausible field.
    Disturbed,
}

/// The number of a magnetometer status: 0 to 3 in declaration order.
pub open spec fn mag_status_number(s: MagStatus) -> i32 {
    match s {
        MagStatus::Missing => 0,
        MagStatus::Learning => 1,
        MagStatus::Ready => 2,
        MagStatus::Disturbed => 3,
    }
}

impl MagStatus {
    /// The number of the magnetometer status.
    pub fn as_i32(self) -> (r: i32)
        ensures
            r == mag_status_number(self),
    {
        match self {
            MagStatus::Missing => 0,
            MagStatus::Learning => 1,
            MagStatus::Ready => 2,
            MagStatus::Disturbed => 3,
        }
    }
}

/// The IMU status published for a magnetometer status after a good read:
/// running while the magnetometer is learning or ready, degraded without a
/// trustworthy one.
pub open spec fn spec_status_for(mag: MagStatus) -> Status {
    match mag {
        MagStatus::Missing | MagStatus::Disturbed => Status::Degraded,
        MagStatus::Learning | MagStatus::Ready => Status::Running,
    }
}

/// The IMU status published for `mag` after a good read.
pub fn status_for(mag: MagStatus) -> (r: Status)
    ensures
        r == spec_status_for(mag),
{
    match mag {
        MagStatus::Missing | MagStatus::Disturbed => Status::Degraded,
        MagStatus::Learning | MagStatus::Ready => Status::Running,
    }
}

/// The unsigned 16-bit value of a little-endian byte pair.
pub open spec fn le_u16(lo: u8, hi: u8) -> int {
    hi * 256 + lo
}

fn u16_from_le(lo: u8, hi: u8) -> (r: u16)
    ensures
        r == le_u16(lo, hi),
{
    (lo as u16) + (hi as u16) * 256
}

/// Bosch factory trim of one BMM150.
#[derive(Clone, Copy, Debug, PartialEq, Eq, Structural)]
pub struct Trim {
    pub dig_x1: i8,
    pub dig_y1: i8,
    pub dig_x2: i8,
    pub dig_y2: i8,
    pub dig_z1: u16,
    pub dig_z2: i16,
    pub dig_z3: i16,
    pub dig_z4: i16,
    pub dig_xy1: u8,
    pub dig_xy2: i8,
    pub dig_xyz1: u16,
}

impl Trim {
    /// The trim in the three register blocks Bosch documents: 0x5D..0x5E,
    /// 0x62..0x65 and 0x68..0x71. Multi-byte values are little-endian; the
    /// top bit of `dig_xyz1` is not part of it.
    pub fn from_registers(x1_y1: [u8; 2], z4_x2_y2: [u8; 4], z2_to_xy1: [u8; 10]) -> (r: Trim)
        ensures
            r.dig_x1 == x1_y1[0] as i8,
            r.dig_y1 == x1_y1[1] as i8,
            r.dig_x2 == z4_x2_y2[2] as i8,
            r.dig_y2 == z4_x2_y2[3] as i8,
            r.dig_z1 == le_u16(z2_to_xy1[2], z2_to_xy1[3]),
            r.dig_z2 == le_i16(z2_to_xy1[0], z2_to_xy1[1]),
            r.dig_z3 == le_i16(z2_to_xy1[6], z2_to_xy1[7]),
            r.dig_z4 == le_i16(z4_x2_y2[0], z4_x2_y2[1]),
            r.dig_xy1 == z2_to_xy1[9],
            r.dig_xy2 == z2_to_xy1[8] as i8,
            r.dig_xyz1 == le_u16(z2_to_xy1[4], z2_to_xy1[5] % 128),
    {
        let b5 = z2_to_xy1[5];
        let high = b5 & 0x7f;
        assert(high == b5 % 128) by (bit_vector)
            requires
                high == b5 & 0x7f,
        ;
        Trim {
            dig_x1: x1_y1[0] as i8,
            dig_y1: x1_y1[1] as i8,
            dig_x2: z4_x2_y2[2] as i8,
            dig_y2: z4_x2_y2[3] as i8,
            dig_z1: u16_from_le(z2_to_xy1[2], z2_to_xy1[3]),
            dig_z2: i16_from_le(z2_to_xy1[0], z2_to_xy1[1]),
            dig_z3: i16_from_le(z2_to_xy1[6], z2_to_xy1[7]),
            dig_z4: i16_from_le(z4_x2_y2[0], z4_x2_y2[1]),
            dig_xy1: z2_to_xy1[9],
            dig_xy2: z2_to_xy1[8] as i8,
            dig_xyz1: u16_from_le(z2_to_xy1[4], high),
        }
    }
}

/// The fields of one BMM150 data frame: X and Y (13 bits), Z (15 bits),
/// the Hall resistance (14 bits) and the data-ready flag.
#[derive(Clone, Copy, Debug, PartialEq, Eq, Structural)]
pub struct RawMag {
    pub x: i16,
    pub y: i16,
    pub z: i16,
    pub rhall: u16,
    pub data_ready: bool,
}

/// The fields of the 8-byte frame `d`: each value little-endian with its
/// low flag bits shifted out (arithmetically for the signed axes), and the
/// data-ready flag in bit 0 of byte 6.
pub open spec fn spec_decode_mag(d: [u8; 8]) -> RawMag {
    RawMag {
        x: (le_i16(d[0], d[1]) / 8) as i16,
        y: (le_i16(d[2], d[3]) / 8) as i16,
        z: (le_i16(d[4], d[5]) / 2) as i16,
        rhall: (le_u16(d[6], d[7]) / 4) as u16,
        data_ready: d[6] % 2 == 1,
    }
}

/// Split an 8-byte BMM150 data frame into its fields.
pub fn decode_mag_frame(data: [u8; 8]) -> (r: RawMag)
    ensures
        r == spec_decode_mag(data),
{
    let x16 = i16_from_le(data[0], data[1]);
    let y16 = i16_from_le(data[2], data[3]);
    let z16 = i16_from_le(data[4], data[5]);
    let x = x16 >> 3u32;
    let y = y16 >> 3u32;
    let z = z16 >> 1u32;
    assert(x == x16 / 8 && y == y16 / 8 && z == z16 / 2) by (bit_vector)
        requires
            x == x16 >> 3u32,
            y == y16 >> 3u32,
            z == z16 >> 1u32,
    ;
    let rhall = u16_from_le(data[6], data[7]) / 4;
    let flags = data[6];
    let ready = flags & 1 != 0;
    assert(ready == (flags % 2 == 1)) by (bit_vector)
        requires
            ready == (flags & 1 != 0),
    ;
    RawMag { x, y, z, rhall, data_ready: ready }
}

/// Decoding keeps every bit above the flag bits: each field times its
/// scale, plus the flag bits shifted out, gives back the little-endian word
/// it came from (read as a signed 16-bit value for the axes). X and Y lose
/// three flag bits, Z one and the Hall resistance two; the data-ready flag
/// is bit 0 of byte 6. In particular the overflow words `0x8000` of X, Y
/// and Z decode to `OVERFLOW_XY` and `OVERFLOW_Z`.
pub proof fn lemma_mag_fields_keep_upper_bits(data: [u8; 8], r: RawMag)
    requires
        r == spec_decode_mag(data),
    ensures
        ({
            let wx = data[1] * 256 + data[0];
            let wy = data[3] * 256 + data[2];
            let wz = data[5] * 256 + data[4];
            &&& 8 * r.x + data[0] % 8 == if wx < 32768 { wx } else { wx - 65536 }
            &&& 8 * r.y + data[2] % 8 == if wy < 32768 { wy } else { wy - 65536 }
            &&& 2 * r.z + data[4] % 2 == if wz < 32768 { wz } else { wz - 65536 }
            &&& 4 * r.rhall + data[6] % 4 == data[7] * 256 + data[6]
            &&& r.data_ready == (data[6] % 2 == 1)
        }),
        data[0] == 0 && data[1] == 0x80 ==> r.x == OVERFLOW_XY,
        data[2] == 0 && data[3] == 0x80 ==> r.y == OVERFLOW_XY,
        data[4] == 0 && data[5] == 0x80 ==> r.z == OVERFLOW_Z,
{
}

/// The frame can be compensated: no axis overflowed, the Hall resistance is
/// known and the trim has the values the compensation divides by.
pub open spec fn spec_mag_usable(raw: RawMag, trim: Trim) -> bool {
    &&& raw.x != OVERFLOW_XY
    &&& raw.y != OVERFLOW_XY
    &&& raw.z != OVERFLOW_Z
    &&& raw.rhall != 0
    &&& trim.dig_xyz1 != 0
    &&& trim.dig_z1 != 0
    &&& trim.dig_z2 != 0
}

/// Whether `raw` can be compensated with `trim`.
pub fn mag_usable(raw: RawMag, trim: Trim) -> (r: bool)
    ensures
        r == spec_mag_usable(raw, trim),
{
    !(raw.x == OVERFLOW_XY || raw.y == OVERFLOW_XY || raw.z == OVERFLOW_Z || raw.rhall == 0
        || trim.dig_xyz1 == 0 || trim.dig_z1 == 0 || trim.dig_z2 == 0)
}

/// The 24-bit sensor time in three little-endian bytes.
pub fn sensor_time(b0: u8, b1: u8, b2: u8) -> (r: u32)
    ensures
        r == b0 + 256 * b1 + 65536 * b2,
{
    (b0 as u32) + (b1 as u32) * 256 + (b2 as u32) * 65536
}

/// How much time one fusion step integrates, in sensor ticks, and whether
/// the step broke the sample timing.
#[derive(Clone, Copy, Debug, PartialEq, Eq, Structural)]
pub struct SampleTiming {
    /// Ticks to integrate.
    pub integration_ticks: u32,
    /// The step was zero or longer than `MAX_FUSION_SAMPLE_GAP_TICKS`.
    pub timing_gap: bool,
}

/// Ticks from `previous` to `current` on the 24-bit counter, which wraps.
pub open spec fn tick_delta(previous: u32, current: u32) -> int {
    (current - previous) % 0x100_0000
}

/// The timing of a sample at sensor time `current`, after one at
/// `previous`: the first sample counts as one nominal period; a zero step
/// or one longer than the gap limit is a timing gap and integrates one
/// nominal period.
pub open spec fn spec_sample_timing(previous: Option<u32>, current: u32) -> SampleTiming {
    let delta = match previous {
        Some(p) => tick_delta(p, current),
        None => NOMINAL_FUSION_TICKS as int,
    };
    let gap = delta == 0 || delta > MAX_FUSION_SAMPLE_GAP_TICKS;
    SampleTiming {
        integration_ticks: if gap {
            NOMINAL_FUSION_TICKS
        } else {
            delta as u32
        },
        timing_gap: gap,
    }
}

/// Every fusion step integrates between one tick and the gap limit, and a
/// step that is not a gap integrates exactly the ticks that passed.
pub proof fn lemma_sample_timing_bounded(previous: Option<u32>, current: u32)
    ensures
        1 <= spec_sample_timing(previous, current).integration_ticks <= MAX_FUSION_SAMPLE_GAP_TICKS,
        !spec_sample_timing(previous, current).timing_gap && previous is Some ==> spec_sample_timing(
            previous,
            current,
        ).integration_ticks == tick_delta(previous->0, current),
{
}

/// The timing of the sample at sensor time `current`.
pub fn sample_timing(previous: Option<u32>, current: u32) -> (r: SampleTiming)
    ensures
        r == spec_sample_timing(previous, current),
{
    let delta = match previous {
        Some(p) => {
            let d = current.wrapping_sub(p) & SENSOR_TIME_MASK;
            assert(d == (current - p) % 0x100_0000) by (bit_vector)
                requires
                    d == (current.wrapping_sub(p)) & 0x00FF_FFFFu32,
            ;
            d
        },
        None => NOMINAL_FUSION_TICKS,
    };
    let gap = delta == 0 || delta > MAX_FUSION_SAMPLE_GAP_TICKS;
    SampleTiming { integration_ticks: if gap { NOMINAL_FUSION_TICKS } else { delta }, timing_gap: gap }
}

/// `n + 1`, staying at `u8::MAX`.
pub open spec fn sat_inc(n: u8) -> u8 {
    if n < u8::MAX {
        (n + 1) as u8
    } else {
        n
    }
}

fn saturating_inc(n: u8) -> (r: u8)
    ensures
        r == sat_inc(n),
{
    if n < u8::MAX {
        n + 1
    } else {
        n
    }
}

/// The magnetometer's state as the capture loop tracks it.
#[derive(Clone, Copy, Debug)]
pub struct MagTracker {
    /// The magnetometer answered and its trim is known.
    pub present: bool,
    /// Its status.
    pub status: MagStatus,
    /// Consecutive good calibrated vectors.
    pub good_samples: u8,
    /// Consecutive bad vectors.
    pub bad_samples: u8,
    /// The last data frame seen.
    pub last_frame: Option<[u8; 8]>,
    /// When the last fresh vector arrived.
    pub last_update_ms: u64,
    /// When the magnetometer was last looked for.
    pub last_retry_ms: u64,
}

/// One more bad vector: the good run ends, and a long enough bad run makes
/// the magnetometer disturbed.
pub open spec fn after_bad(t: MagTracker) -> MagTracker {
    let bad = sat_inc(t.bad_samples);
    MagTracker {
        good_samples: 0,
        bad_samples: bad,
        status: if bad >= MAG_BAD_SAMPLES_TO_DISTURBED {
            MagStatus::Disturbed
        } else {
            t.status
        },
        ..t
    }
}

impl MagTracker {
    /// The state after initialisation at `now_ms`: learning when the
    /// magnetometer answered, missing otherwise.
    pub fn new(present: bool, now_ms: u64) -> (r: MagTracker)
        ensures
            r.present == present,
            r.status == if present {
                MagStatus::Learning
            } else {
                MagStatus::Missing
            },
            r.good_samples == 0,
            r.bad_samples == 0,
            r.last_frame is None,
            r.last_update_ms == now_ms,
            r.last_retry_ms == now_ms,
    {
        MagTracker {
            present,
            status: if present {
                MagStatus::Learning
            } else {
                MagStatus::Missing
            },
            good_samples: 0,
            bad_samples: 0,
            last_frame: None,
            last_update_ms: now_ms,
            last_retry_ms: now_ms,
        }
    }

    /// Whether to look for a missing magnetometer at `now_ms`: every
    /// `MAG_RETRY_MS` while it is absent. A due retry moves the retry time
    /// to `now_ms`.
    pub fn retry_due(&mut self, now_ms: u64) -> (r: bool)
        requires
            !old(self).present ==> now_ms >= old(self).last_retry_ms,
        ensures
            r == (!old(self).present && now_ms - old(self).last_retry_ms >= MAG_RETRY_MS),
            r ==> *final(self) == (MagTracker { last_retry_ms: now_ms, ..*old(self) }),
            !r ==> *final(self) == *old(self),
    {
        if !self.present && now_ms - self.last_retry_ms >= MAG_RETRY_MS {
            self.last_retry_ms = now_ms;
            true
        } else {
            false
        }
    }

    /// The magnetometer answered again at `now_ms`: it learns from scratch.
    pub fn recovered(&mut self, now_ms: u64)
        ensures
            *final(self) == (MagTracker {
                present: true,
                status: MagStatus::Learning,
                good_samples: 0,
                bad_samples: 0,
                last_frame: None,
                last_update_ms: now_ms,
                ..*old(self)
            }),
    {
        self.present = true;
        self.status = MagStatus::Learning;
        self.good_samples = 0;
        self.bad_samples = 0;
        self.last_frame = None;
        self.last_update_ms = now_ms;
    }

    /// Whether `frame` differs from the last frame seen; it becomes the last
    /// frame seen.
    pub fn take_frame(&mut self, frame: [u8; 8]) -> (r: bool)
        ensures
            r == (old(self).last_frame != Some(frame)),
            *final(self) == (MagTracker { last_frame: Some(frame), ..*old(self) }),
    {
        let is_new = match self.last_frame {
            None => true,
            Some(last) => {
                let mut same = true;
                let mut i: usize = 0;
                while i < 8
                    invariant
                        i <= 8,
                        same == (forall|k: int| 0 <= k < i ==> last[k] == frame[k]),
                    decreases 8 - i,
                {
                    if last[i] != frame[i] {
                        same = false;
                    }
                    i = i + 1;
                }
                proof {
                    if same {
                        assert(last =~= frame);
                    }
                }
                !same
            },
        };
        self.last_frame = Some(frame);
        is_new
    }

    /// A new frame could not be compensated: it counts as a bad vector.
    pub fn invalid_frame(&mut self)
        ensures
            *final(self) == after_bad(*old(self)),
    {
        self.good_samples = 0;
        self.bad_samples = saturating_inc(self.bad_samples);
        if self.bad_samples >= MAG_BAD_SAMPLES_TO_DISTURBED {
            self.status = MagStatus::Disturbed;
        }
    }

    /// A fresh vector arrived at `now_ms`. `raw_learnable`: its raw strength
    /// is plausible for learning; `calibration_ready`: the calibration is
    /// accepted; `field_good`: the calibrated strength is geomagnetic.
    /// Before calibration a learnable vector keeps the magnetometer learning
    /// and others count as bad; after it, good vectors count toward ready
    /// and bad ones toward disturbed. Returns whether the vector may correct
    /// the heading: only a good vector while ready.
    pub fn accept_vector(
        &mut self,
        now_ms: u64,
        raw_learnable: bool,
        calibration_ready: bool,
        field_good: bool,
    ) -> (fuse: bool)
        ensures
            final(self).last_update_ms == now_ms,
            final(self).present == old(self).present,
            final(self).last_frame == old(self).last_frame,
            final(self).last_retry_ms == old(self).last_retry_ms,
            fuse ==> final(self).status == MagStatus::Ready,
            !calibration_ready ==> !fuse && if raw_learnable {
                &&& final(self).status == MagStatus::Learning
                &&& final(self).good_samples == 0
                &&& final(self).bad_samples == 0
            } else {
                *final(self) == (MagTracker { last_update_ms: now_ms, ..after_bad(*old(self)) })
            },
            calibration_ready && field_good ==> {
                let good = sat_inc(old(self).good_samples);
                &&& final(self).good_samples == good
                &&& final(self).bad_samples == 0
                &&& fuse == (old(self).status == MagStatus::Ready || good >= MAG_GOOD_SAMPLES_TO_READY)
                &&& final(self).status == if fuse {
                    MagStatus::Ready
                } else {
                    old(self).status
                }
            },
            calibration_ready && !field_good ==> !fuse && *final(self) == (MagTracker {
                last_update_ms: now_ms,
                ..after_bad(*old(self))
            }),
    {
        self.last_update_ms = now_ms;
        if !calibration_ready {
            self.good_samples = 0;
            if raw_learnable {
                self.bad_samples = 0;
                self.status = MagStatus::Learning;
            } else {
                self.bad_samples = saturating_inc(self.bad_samples);
                if self.bad_samples >= MAG_BAD_SAMPLES_TO_DISTURBED {
                    self.status = MagStatus::Disturbed;
                }
            }
            return false;
        }
        if field_good {
            self.good_samples = saturating_inc(self.good_samples);
            self.bad_samples = 0;
            if self.status == MagStatus::Ready || self.good_samples >= MAG_GOOD_SAMPLES_TO_READY {
                self.status = MagStatus::Ready;
                return true;
            }
            false
        } else {
            self.bad_samples = saturating_inc(self.bad_samples);
            self.good_samples = 0;
            if self.bad_samples >= MAG_BAD_SAMPLES_TO_DISTURBED {
                self.status = MagStatus::Disturbed;
            }
            false
        }
    }

    /// End of a sample at `now_ms`: an absent magnetometer is missing, and a
    /// present one whose last fresh vector is `MAG_STALE_MS` old becomes
    /// missing with its runs cleared. Returns whether the heading may still
    /// be corrected with this sample's vector (`fuse`).
    pub fn finish_sample(&mut self, now_ms: u64, fuse: bool) -> (r: bool)
        requires
            old(self).present ==> now_ms >= old(self).last_update_ms,
        ensures
            !old(self).present ==> !r && *final(self) == (MagTracker {
                status: MagStatus::Missing,
                ..*old(self)
            }),
            old(self).present && now_ms - old(self).last_update_ms >= MAG_STALE_MS ==> !r
                && *final(self) == (MagTracker {
                status: MagStatus::Missing,
                good_samples: 0,
                bad_samples: 0,
                ..*old(self)
            }),
            old(self).present && now_ms - old(self).last_update_ms < MAG_STALE_MS ==> r == fuse
                && *final(self) == *old(self),
    {
        if !self.present {
            self.status = MagStatus::Missing;
            return false;
        }
        if now_ms - self.last_update_ms >= MAG_STALE_MS {
            self.status = MagStatus::Missing;
            self.good_samples = 0;
            self.bad_samples = 0;
            return false;
        }
        fuse
    }
}

/// Consecutive failed sensor reads.
#[derive(Clone, Copy, Debug, PartialEq, Eq, Structural)]
pub struct ReadErrors {
    /// Failures since the last good read, saturating.
    pub consecutive: u8,
}

impl ReadErrors {
    /// No failure yet.
    pub fn new() -> (r: ReadErrors)
        ensures
            r.consecutive == 0,
    {
        ReadErrors { consecutive: 0 }
    }

    /// A read succeeded.
    pub fn record_ok(&mut self)
        ensures
            final(self).consecutive == 0,
    {
        self.consecutive = 0;
    }

    /// A read failed. Returns whether the IMU must be reinitialised: after
    /// `MAX_CONSECUTIVE_READ_ERRORS` failures in a row.
    pub fn record_error(&mut self) -> (reinit: bool)
        ensures
            final(self).consecutive == sat_inc(old(self).consecutive),
            reinit == (final(self).consecutive >= MAX_CONSECUTIVE_READ_ERRORS),
    {
        self.consecutive = saturating_inc(self.consecutive);
        self.consecutive >= MAX_CONSECUTIVE_READ_ERRORS
    }
}

/// The number of set bits of `v`.
pub open spec fn ones(v: int) -> nat
    decreases v,
{
    if v <= 0 {
        0
    } else {
        (v % 2) as nat + ones(v / 2)
    }
}

proof fn lemma_ones_le(v: int)
    requires
        v >= 0,
    ensures
        ones(v) <= v,
    decreases v,
{
    if v > 0 {
        lemma_ones_le(v / 2);
    }
}

proof fn lemma_ones_double(w: int)
    requires
        w >= 0,
    ensures
        ones(2 * w) == ones(w),
{
    if w > 0 {
        assert((2 * w) % 2 == 0 && (2 * w) / 2 == w);
    }
}

/// Clearing the lowest set bit of a non-zero value removes one set bit.
proof fn lemma_clear_lowest_u32(v: u32)
    requires
        v != 0,
    ensures
        ones((v & ((v - 1) as u32)) as int) + 1 == ones(v as int),
    decreases v,
{
    if v % 2 == 1 {
        assert(v & ((v - 1) as u32) == ((v - 1) as u32)) by (bit_vector)
            requires
                v % 2 == 1,
        ;
        assert((v - 1) / 2 == v / 2);
    } else {
        let h = v / 2;
        assert(h != 0 && v & ((v - 1) as u32) == 2 * (h & ((h - 1) as u32))) by (bit_vector)
            requires
                v % 2 == 0,
                v != 0,
                h == v / 2,
        ;
        lemma_clear_lowest_u32(h);
        lemma_ones_double((h & ((h - 1) as u32)) as int);
    }
}

/// The number of set bits of `value`, clearing the lowest set bit until
/// none is left.
pub fn bit_count_u32(value: u32) -> (r: u32)
    ensures
        r == ones(value as int),
{
    let mut v = value;
    let mut count: u32 = 0;
    proof {
        lemma_ones_le(value as int);
    }
    while v != 0
        invariant
            count + ones(v as int) == ones(value as int),
            ones(value as int) <= value,
        decreases v,
    {
        proof {
            lemma_clear_lowest_u32(v);
        }
        let next = v & (v - 1);
        assert(next < v) by (bit_vector)
            requires
                v != 0,
                next == v & ((v - 1) as u32),
        ;
        v = next;
        count = count + 1;
    }
    count
}

/// Clearing the lowest set bit of a non-zero byte removes one set bit.
proof fn lemma_clear_lowest_u8(v: u8)
    requires
        v != 0,
    ensures
        ones((v & ((v - 1) as u8)) as int) + 1 == ones(v as int),
    decreases v,
{
    if v % 2 == 1 {
        assert(v & ((v - 1) as u8) == ((v - 1) as u8)) by (bit_vector)
            requires
                v % 2 == 1,
        ;
        assert((v - 1) / 2 == v / 2);
    } else {
        let h = v / 2;
        assert(h != 0 && v & ((v - 1) as u8) == 2 * (h & ((h - 1) as u8))) by (bit_vector)
            requires
                v % 2 == 0,
                v != 0,
                h == v / 2,
        ;
        lemma_clear_lowest_u8(h);
        lemma_ones_double((h & ((h - 1) as u8)) as int);
    }
}

/// The number of set bits of `value`, clearing the lowest set bit until
/// none is left.
pub fn bit_count_u8(value: u8) -> (r: u32)
    ensures
        r == ones(value as int),
{
    let mut v = value;
    let mut count: u32 = 0;
    proof {
        lemma_ones_le(value as int);
    }
    while v != 0
        invariant
            count + ones(v as int) == ones(value as int),
            ones(value as int) <= value,
        decreases v,
    {
        proof {
            lemma_clear_lowest_u8(v);
        }
        let next = v & (v - 1);
        assert(next < v) by (bit_vector)
            requires
                v != 0,
                next == v & ((v - 1) as u8),
        ;
        v = next;
        count = count + 1;
    }
    count
}

} // verus!
