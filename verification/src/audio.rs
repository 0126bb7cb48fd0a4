//! Audio block hand-over, playback settings and sample framing.
//!
//! The I2S DMA and the codecs stay outside this crate. Captured stereo
//! frames are assembled here into blocks with their peak levels; the newest
//! complete block is handed to CPU0; the speaker stream is framed here from
//! 16-bit samples into the bytes the DMA consumes.

use vstd::prelude::*;

use crate::network::{wrap_inc, wrapping_inc};

verus! {

/// Sample rate of microphone and speaker.
pub const SAMPLE_RATE_HZ: u32 = 16_000;
/// Stereo frames per published block.
pub const BLOCK_FRAMES: usize = 512;
/// Interleaved channels per frame.
pub const CHANNELS: usize = 2;
/// Samples per published block.
pub const BLOCK_SAMPLES: usize = 1024;

/// Valid melody tempo in quarter-note beats per minute, 60 to 180.
#[derive(Clone, Copy, Debug, PartialEq, Eq, Structural)]
pub struct TempoBpm(u16);

impl View for TempoBpm {
    type V = u16;

    closed spec fn view(&self) -> u16 {
        self.0
    }
}

impl TempoBpm {
    /// 60 beats per minute.
    pub fn min() -> (r: TempoBpm)
        ensures
            r@ == 60,
    {
        TempoBpm(60)
    }

    /// 120 beats per minute.
    pub fn default_tempo() -> (r: TempoBpm)
        ensures
            r@ == 120,
    {
        TempoBpm(120)
    }

    /// 180 beats per minute.
    pub fn max() -> (r: TempoBpm)
        ensures
            r@ == 180,
    {
        TempoBpm(180)
    }

    /// The tempo `value`, when it lies within 60 to 180.
    pub fn new(value: u16) -> (r: Option<TempoBpm>)
        ensures
            r is Some <==> 60 <= value <= 180,
            r matches Some(t) ==> t@ == value,
    {
        if value >= 60 && value <= 180 {
            Some(TempoBpm(value))
        } else {
            None
        }
    }

    /// The tempo in beats per minute.
    pub fn get(self) -> (r: u16)
        ensures
            r == self@,
    {
        self.0
    }
}

/// Chromatic transposition of the melody, -12 to +12 semitones.
#[derive(Clone, Copy, Debug, PartialEq, Eq, Structural)]
pub struct PitchSemitones(i8);

impl View for PitchSemitones {
    type V = i8;

    closed spec fn view(&self) -> i8 {
        self.0
    }
}

impl PitchSemitones {
    /// One octave down.
    pub fn min() -> (r: PitchSemitones)
        ensures
            r@ == -12,
    {
        PitchSemitones(-12)
    }

    /// No transposition.
    pub fn center() -> (r: PitchSemitones)
        ensures
            r@ == 0,
    {
        PitchSemitones(0)
    }

    /// One octave up.
    pub fn max() -> (r: PitchSemitones)
        ensures
            r@ == 12,
    {
        PitchSemitones(12)
    }

    /// The transposition `value`, when it lies within -12 to 12.
    pub fn new(value: i8) -> (r: Option<PitchSemitones>)
        ensures
            r is Some <==> -12 <= value <= 12,
            r matches Some(p) ==> p@ == value,
    {
        if value >= -12 && value <= 12 {
            Some(PitchSemitones(value))
        } else {
            None
        }
    }

    /// The transposition in semitones.
    pub fn get(self) -> (r: i8)
        ensures
            r == self@,
    {
        self.0
    }
}

/// Complete continuous playback intent published by CPU0.
#[derive(Clone, Copy, Debug, PartialEq, Eq, Structural)]
pub struct PlaybackSettings {
    /// The melody loop plays.
    pub melody_playing: bool,
    /// Its tempo.
    pub tempo: TempoBpm,
    /// Its transposition.
    pub pitch: PitchSemitones,
}

impl PlaybackSettings {
    /// Melody stopped, 120 beats per minute, no transposition.
    pub fn default_settings() -> (r: PlaybackSettings)
        ensures
            !r.melody_playing,
            r.tempo@ == 120,
            r.pitch@ == 0,
    {
        PlaybackSettings {
            melody_playing: false,
            tempo: TempoBpm::default_tempo(),
            pitch: PitchSemitones::center(),
        }
    }
}

/// Description of a published microphone block.
#[derive(Clone, Copy, Debug, PartialEq, Eq, Structural)]
pub struct AudioBlockInfo {
    /// Publication counter; zero means nothing was published.
    pub sequence: u32,
    /// Largest absolute left sample.
    pub peak_left: u16,
    /// Largest absolute right sample.
    pub peak_right: u16,
}

/// `x` limited to the `i16` range.
pub open spec fn clamp_i16(x: int) -> int {
    if x < i16::MIN {
        i16::MIN as int
    } else if x > i16::MAX {
        i16::MAX as int
    } else {
        x
    }
}

/// The sum of two samples, saturated to the `i16` range.
pub fn saturating_mix(a: i16, b: i16) -> (r: i16)
    ensures
        r == clamp_i16(a + b),
{
    let sum: i32 = a as i32 + b as i32;
    if sum < -32768 {
        -32768
    } else if sum > 32767 {
        32767
    } else {
        sum as i16
    }
}

/// The signed 16-bit value of a little-endian byte pair.
pub open spec fn le_i16(lo: u8, hi: u8) -> int {
    let v = hi * 256 + lo;
    if v < 32768 {
        v
    } else {
        v - 65536
    }
}

/// The signed 16-bit sample stored little-endian in `lo`, `hi`.
pub fn i16_from_le(lo: u8, hi: u8) -> (r: i16)
    ensures
        r == le_i16(lo, hi),
{
    let v: u16 = (lo as u16) | ((hi as u16) << 8u16);
    assert(v == hi * 256 + lo) by (bit_vector)
        requires
            v == (lo as u16) | ((hi as u16) << 8u16),
    ;
    if v < 32768 {
        v as i16
    } else {
        (v as i32 - 65536) as i16
    }
}

/// The magnitude of a sample.
pub open spec fn abs16(x: i16) -> int {
    if x < 0 {
        -x
    } else {
        x as int
    }
}

/// The magnitude of a sample, which fits `u16` also for `i16::MIN`.
pub fn unsigned_abs(x: i16) -> (r: u16)
    ensures
        r == abs16(x),
{
    if x < 0 {
        (-(x as i32)) as u16
    } else {
        x as u16
    }
}

/// The four speaker bytes for one sample: the same little-endian sample on
/// both channels.
pub open spec fn frame_bytes(sample: i16) -> Seq<u8> {
    let v = (sample as u16) as int;
    seq![(v % 256) as u8, (v / 256) as u8, (v % 256) as u8, (v / 256) as u8]
}

/// The byte stream of consecutive frames.
pub open spec fn frames_stream(samples: Seq<i16>) -> Seq<u8>
    decreases samples.len(),
{
    if samples.len() == 0 {
        Seq::empty()
    } else {
        frames_stream(samples.drop_last()) + frame_bytes(samples.last())
    }
}

/// Assembles captured stereo frames into blocks of `BLOCK_FRAMES`, tracking
/// the peak level of each channel.
pub struct CaptureAssembler {
    samples: [i16; BLOCK_SAMPLES],
    frame_index: usize,
    peak_left: u16,
    peak_right: u16,
}

impl CaptureAssembler {
    #[verifier::type_invariant]
    closed spec fn below_block(self) -> bool {
        self.frame_index < BLOCK_FRAMES
    }

    /// The interleaved samples of the block being assembled.
    pub closed spec fn spec_samples(&self) -> Seq<i16> {
        self.samples@
    }

    /// Frames already in the current block.
    pub closed spec fn spec_frame_index(&self) -> int {
        self.frame_index as int
    }

    /// Peak magnitudes of the current block, left and right.
    pub closed spec fn spec_peaks(&self) -> (u16, u16) {
        (self.peak_left, self.peak_right)
    }

    /// An empty block.
    pub fn new() -> (r: CaptureAssembler)
        ensures
            r.spec_frame_index() == 0,
            r.spec_peaks() == (0u16, 0u16),
            r.spec_samples() == Seq::new(BLOCK_SAMPLES as nat, |i: int| 0i16),
    {
        CaptureAssembler { samples: [0; BLOCK_SAMPLES], frame_index: 0, peak_left: 0, peak_right: 0 }
    }

    /// Add one captured frame, four bytes: left then right, each a
    /// little-endian `i16`. Returns the finished block's peaks when this
    /// frame completes a block; the caller then publishes `samples()`.
    /// The next frame starts a new block with zero peaks.
    pub fn push_frame(&mut self, frame: [u8; 4]) -> (r: Option<(u16, u16)>)
        ensures
            ({
                let i = old(self).spec_frame_index();
                let left = le_i16(frame@[0], frame@[1]);
                let right = le_i16(frame@[2], frame@[3]);
                let pl = if abs16(left as i16) > old(self).spec_peaks().0 {
                    abs16(left as i16)
                } else {
                    old(self).spec_peaks().0 as int
                };
                let pr = if abs16(right as i16) > old(self).spec_peaks().1 {
                    abs16(right as i16)
                } else {
                    old(self).spec_peaks().1 as int
                };
                &&& final(self).spec_samples() == old(self).spec_samples().update(2 * i, left as i16).update(
                    2 * i + 1,
                    right as i16,
                )
                &&& if i + 1 == BLOCK_FRAMES {
                    &&& r == Some((pl as u16, pr as u16))
                    &&& final(self).spec_frame_index() == 0
                    &&& final(self).spec_peaks() == (0u16, 0u16)
                } else {
                    &&& r is None
                    &&& final(self).spec_frame_index() == i + 1
                    &&& final(self).spec_peaks() == (pl as u16, pr as u16)
                }
            }),
    {
        proof {
            use_type_invariant(&*self);
        }
        let left = i16_from_le(frame[0], frame[1]);
        let right = i16_from_le(frame[2], frame[3]);
        let index = self.frame_index * CHANNELS;
        let mut samples = self.samples;
        samples[index] = left;
        samples[index + 1] = right;
        let left_abs = unsigned_abs(left);
        let right_abs = unsigned_abs(right);
        let peak_left = if left_abs > self.peak_left {
            left_abs
        } else {
            self.peak_left
        };
        let peak_right = if right_abs > self.peak_right {
            right_abs
        } else {
            self.peak_right
        };
        if self.frame_index + 1 == BLOCK_FRAMES {
            *self = CaptureAssembler { samples, frame_index: 0, peak_left: 0, peak_right: 0 };
            Some((peak_left, peak_right))
        } else {
            *self = CaptureAssembler {
                samples,
                frame_index: self.frame_index + 1,
                peak_left,
                peak_right,
            };
            None
        }
    }

    /// The interleaved samples of the current block; after `push_frame`
    /// returned peaks, those of the finished block.
    pub fn samples(&self) -> (r: &[i16; BLOCK_SAMPLES])
        ensures
            r@ == self.spec_samples(),
    {
        &self.samples
    }
}

/// Frames the speaker byte stream: each sample becomes one stereo frame of
/// four bytes, and a frame cut by the end of a buffer continues at the start
/// of the next one.
pub struct PlaybackEngine {
    pending_frame: [u8; 4],
    pending_offset: usize,
}

impl PlaybackEngine {
    #[verifier::type_invariant]
    closed spec fn offset_ok(self) -> bool {
        self.pending_offset <= 4
    }

    /// The bytes of the current frame not emitted yet.
    pub closed spec fn pending(&self) -> Seq<u8> {
        self.pending_frame@.skip(self.pending_offset as int)
    }

    /// Nothing pending.
    pub fn new() -> (r: PlaybackEngine)
        ensures
            r.pending() == Seq::<u8>::empty(),
    {
        let r = PlaybackEngine { pending_frame: [0; 4], pending_offset: 4 };
        assert(r.pending() =~= Seq::<u8>::empty());
        r
    }

    /// The number of pending bytes, 0 to 4.
    pub fn pending_len(&self) -> (r: usize)
        ensures
            r == self.pending().len(),
            r <= 4,
    {
        proof {
            use_type_invariant(self);
        }
        4 - self.pending_offset
    }

    /// The sample a frame carries: the melody, when it plays, mixed with the
    /// chime, saturated.
    pub fn frame_sample(settings: PlaybackSettings, melody: i16, chime: i16) -> (r: i16)
        ensures
            r == clamp_i16((if settings.melody_playing { melody as int } else { 0int }) + chime),
    {
        let melody = if settings.melody_playing {
            melody
        } else {
            0
        };
        saturating_mix(melody, chime)
    }

    /// Fill all of `bytes`: first the pending bytes, then the frames of
    /// `samples`, in order. `samples` must hold exactly the frames needed; the
    /// bytes of the last frame that do not fit stay pending.
    pub fn fill(&mut self, bytes: &mut [u8], samples: &[i16]) -> (r: usize)
        requires
            fill_fits(old(self).pending(), samples@, old(bytes)@.len() as int),
        ensures
            r == old(bytes)@.len(),
            final(bytes)@ == (old(self).pending() + frames_stream(samples@)).take(r as int),
            final(self).pending() == (old(self).pending() + frames_stream(samples@)).skip(r as int),
    {
        proof {
            use_type_invariant(&*self);
        }
        let ghost stream = old(self).pending() + frames_stream(samples@);
        proof {
            lemma_frames_stream_len(samples@);
        }
        let mut next: usize = 0;
        let mut i: usize = 0;
        let n = bytes.len();
        while i < n
            invariant
                i <= n,
                n == bytes@.len(),
                n == old(bytes)@.len(),
                self.pending_offset <= 4,
                next <= samples@.len(),
                stream == old(self).pending() + frames_stream(samples@),
                old(self).pending().len() + 4 * samples@.len() >= n,
                samples@.len() == 0 || old(self).pending().len() + 4 * (samples@.len() - 1) < n,
                stream.len() == old(self).pending().len() + 4 * samples@.len(),
                // bytes emitted so far plus what is pending is the consumed prefix
                old(self).pending().len() + 4 * next == i + self.pending().len(),
                next > 0 ==> self.pending_frame@ == frame_bytes(samples@[next - 1]),
                next == 0 ==> self.pending_frame == old(self).pending_frame,
                forall|q: int| 0 <= q < i ==> bytes@[q] == stream[q],
                forall|q: int| 0 <= q < self.pending().len() ==> self.pending()[q] == stream[i + q],
            decreases n - i,
        {
            proof {
                lemma_frames_stream_len(samples@);
            }
            if self.pending_offset == 4 {
                proof {
                    assert(next < samples@.len());
                    lemma_frames_stream_at(samples@, next as int);
                }
                let sample = samples[next];
                let v = #[verifier::truncate] (sample as u16);
                let lo = (v % 256) as u8;
                let hi = (v / 256) as u8;
                self.pending_frame = [lo, hi, lo, hi];
                self.pending_offset = 0;
                next = next + 1;
                proof {
                    assert(self.pending_frame@ =~= frame_bytes(samples@[next - 1]));
                    let k = next - 1;
                    let p = old(self).pending().len();
                    assert forall|q: int| 0 <= q < self.pending().len() implies self.pending()[q] == stream[i + q] by {
                        assert(i + q - p == 4 * k + q);
                        assert(frames_stream(samples@)[4 * k + q] == frame_bytes(samples@[k])[q]);
                        assert(stream[i + q] == frames_stream(samples@)[i + q - p]);
                        assert(self.pending()[q] == self.pending_frame@[q]);
                    }
                }
            }
            let ghost before = self.pending();
            proof {
                assert(before.len() > 0);
                assert(before[0] == self.pending_frame@[self.pending_offset as int]);
            }
            bytes[i] = self.pending_frame[self.pending_offset];
            self.pending_offset = self.pending_offset + 1;
            i = i + 1;
            proof {
                assert(bytes@[i - 1] == stream[i - 1]);
                assert forall|q: int| 0 <= q < self.pending().len() implies self.pending()[q] == stream[i + q] by {
                    assert(self.pending()[q] == before[q + 1]);
                }
            }
        }
        proof {
            lemma_frames_stream_len(samples@);
            assert(bytes@ =~= stream.take(n as int));
            assert(self.pending() =~= stream.skip(n as int));
        }
        n
    }
}

/// The stream has four bytes per sample.
pub proof fn lemma_frames_stream_len(samples: Seq<i16>)
    ensures
        frames_stream(samples).len() == 4 * samples.len(),
    decreases samples.len(),
{
    if samples.len() > 0 {
        lemma_frames_stream_len(samples.drop_last());
    }
}

/// `samples` hold exactly the frames that filling `len` bytes after the
/// `pending` bytes needs: enough, and not one more.
pub open spec fn fill_fits(pending: Seq<u8>, samples: Seq<i16>, len: int) -> bool {
    &&& pending.len() + 4 * samples.len() >= len
    &&& (samples.len() == 0 || pending.len() + 4 * (samples.len() - 1) < len)
}

/// The frames of two runs of samples are the frames of the first followed
/// by those of the second.
pub proof fn lemma_frames_stream_concat(a: Seq<i16>, b: Seq<i16>)
    ensures
        frames_stream(a + b) == frames_stream(a) + frames_stream(b),
    decreases b.len(),
{
    if b.len() == 0 {
        assert(a + b =~= a);
        assert(frames_stream(a) + frames_stream(b) =~= frames_stream(a));
    } else {
        lemma_frames_stream_concat(a, b.drop_last());
        assert((a + b).drop_last() =~= a + b.drop_last());
        assert((a + b).last() == b.last());
        assert(frames_stream(a) + frames_stream(b) =~= frames_stream(a) + frames_stream(b.drop_last())
            + frame_bytes(b.last()));
    }
}

/// Filling is independent of how the output is cut: filling `a_len` bytes
/// with `sa` and then `b_len` bytes with `sb` (each call given exactly the
/// frames it needs) writes the same bytes and leaves the same pending
/// bytes as one fill of `a_len + b_len` bytes with `sa + sb`, which is then
/// given exactly the frames it needs too. Every frame is the sample's
/// little-endian bytes twice, left equal to right (`frame_bytes`).
pub proof fn lemma_fill_split(pending: Seq<u8>, a_len: int, b_len: int, sa: Seq<i16>, sb: Seq<i16>)
    requires
        0 <= a_len,
        0 <= b_len,
        fill_fits(pending, sa, a_len),
        fill_fits((pending + frames_stream(sa)).skip(a_len), sb, b_len),
    ensures
        ({
            let one = pending + frames_stream(sa + sb);
            let first = pending + frames_stream(sa);
            let second = first.skip(a_len) + frames_stream(sb);
            &&& fill_fits(pending, sa + sb, a_len + b_len)
            &&& first.take(a_len) + second.take(b_len) == one.take(a_len + b_len)
            &&& second.skip(b_len) == one.skip(a_len + b_len)
        }),
{
    lemma_frames_stream_concat(sa, sb);
    lemma_frames_stream_len(sa);
    lemma_frames_stream_len(sb);
    let one = pending + frames_stream(sa + sb);
    let first = pending + frames_stream(sa);
    let second = first.skip(a_len) + frames_stream(sb);
    assert(one =~= first + frames_stream(sb));
    assert(second =~= one.skip(a_len));
    assert(first.take(a_len) + second.take(b_len) =~= one.take(a_len + b_len));
    assert(second.skip(b_len) =~= one.skip(a_len + b_len));
}

/// Frame `k` of the stream is the frame of sample `k`.
pub proof fn lemma_frames_stream_at(samples: Seq<i16>, k: int)
    requires
        0 <= k < samples.len(),
    ensures
        forall|q: int| 0 <= q < 4 ==> #[trigger] frames_stream(samples)[4 * k + q] == frame_bytes(samples[k])[q],
    decreases samples.len(),
{
    lemma_frames_stream_len(samples.drop_last());
    if k < samples.len() - 1 {
        lemma_frames_stream_at(samples.drop_last(), k);
        assert forall|q: int| 0 <= q < 4 implies #[trigger] frames_stream(samples)[4 * k + q] == frame_bytes(samples[k])[q] by {
            assert(frames_stream(samples)[4 * k + q] == frames_stream(samples.drop_last())[4 * k + q]);
        }
    }
}

/// The newest complete microphone block and its description.
pub struct LatestAudio {
    samples: [i16; BLOCK_SAMPLES],
    info: AudioBlockInfo,
}

impl LatestAudio {
    /// The published samples.
    pub closed spec fn spec_samples(&self) -> Seq<i16> {
        self.samples@
    }

    /// The published description.
    pub closed spec fn spec_info(&self) -> AudioBlockInfo {
        self.info
    }

    /// Nothing published: silent samples, sequence zero.
    pub fn new() -> (r: LatestAudio)
        ensures
            r.spec_info() == (AudioBlockInfo { sequence: 0, peak_left: 0, peak_right: 0 }),
            r.spec_samples() == Seq::new(BLOCK_SAMPLES as nat, |i: int| 0i16),
    {
        LatestAudio {
            samples: [0; BLOCK_SAMPLES],
            info: AudioBlockInfo { sequence: 0, peak_left: 0, peak_right: 0 },
        }
    }

    /// Replace the block; the sequence advances by one, wrapping. Returns
    /// the new sequence.
    pub fn publish(&mut self, samples: &[i16; BLOCK_SAMPLES], peak_left: u16, peak_right: u16) -> (r: u32)
        ensures
            r == wrap_inc(old(self).spec_info().sequence),
            final(self).spec_info() == (AudioBlockInfo { sequence: r, peak_left, peak_right }),
            final(self).spec_samples() == samples@,
    {
        self.samples = *samples;
        self.info = AudioBlockInfo {
            sequence: wrapping_inc(self.info.sequence),
            peak_left,
            peak_right,
        };
        self.info.sequence
    }

    /// Copy the newest block into `out`; `None`, with `out` untouched,
    /// while nothing has been published.
    pub fn copy_to(&self, out: &mut [i16; BLOCK_SAMPLES]) -> (r: Option<AudioBlockInfo>)
        ensures
            self.spec_info().sequence == 0 ==> r is None && final(out)@ == old(out)@,
            self.spec_info().sequence != 0 ==> r == Some(self.spec_info()) && final(out)@
                == self.spec_samples(),
    {
        if self.info.sequence == 0 {
            return None;
        }
        *out = self.samples;
        Some(self.info)
    }
}

} // verus!
