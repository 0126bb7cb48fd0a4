//! Stack watermarking and heap pressure policy.
//!
//! The firmware paints the unused part of each CPU's stack with a pattern
//! once, and later scans for the first overwritten word to learn the deepest
//! stack use since start-up. Heap usage is watched continuously so internal
//! SRAM stays an explicit budget. The shell reads the allocator statistics
//! and the stack memory and hands them to the policy here.

use vstd::prelude::*;

verus! {

/// Interval of the periodic memory report.
pub const PERIODIC_REPORT_INTERVAL_MS: u64 = 10_000;
/// Internal free bytes at or below which the heap is low.
pub const INTERNAL_WARN_FREE_BYTES: usize = 32768;
/// Internal free bytes at or below which the heap is critical.
pub const INTERNAL_CRITICAL_FREE_BYTES: usize = 16384;
/// The word painted into unused stack.
pub const STACK_WATERMARK_PATTERN: u32 = 0xA5A5_A5A5;
/// Bytes above the stack bottom that are never painted (guard and control
/// area).
pub const STACK_WATERMARK_RESERVED_BYTES: usize = 256;
/// Bytes below the live stack pointer that are never painted.
pub const STACK_WATERMARK_SAFETY_BYTES: usize = 256;
/// Size of one painted word.
pub const STACK_WORD_BYTES: usize = 4;

/// The largest multiple of `STACK_WORD_BYTES` that is at most `v`.
pub open spec fn word_floor(v: int) -> int {
    v - v % (STACK_WORD_BYTES as int)
}

/// The smallest multiple of `STACK_WORD_BYTES` that is at least `v`.
pub open spec fn word_ceil(v: int) -> int {
    word_floor(v + STACK_WORD_BYTES - 1)
}

/// `a - b`, or zero when `b` is larger.
pub open spec fn sat_sub(a: int, b: int) -> int {
    if a >= b {
        a - b
    } else {
        0
    }
}

/// The smaller of `a` and `b`.
pub open spec fn min_int(a: int, b: int) -> int {
    if a <= b {
        a
    } else {
        b
    }
}

/// The smallest multiple of `STACK_WORD_BYTES` that is at least `value`.
fn align_up(value: usize) -> (r: usize)
    requires
        value + STACK_WORD_BYTES - 1 <= usize::MAX,
    ensures
        r == word_ceil(value as int),
{
    let sum = value + (STACK_WORD_BYTES - 1);
    let r = sum & !(STACK_WORD_BYTES - 1);
    assert(r % 4 == 0 && value <= r && r < value + 4) by (bit_vector)
        requires
            r == sum & !3usize,
            sum == value + 3,
    ;
    r
}

/// The largest multiple of `STACK_WORD_BYTES` that is at most `value`.
fn align_down(value: usize) -> (r: usize)
    ensures
        r == word_floor(value as int),
{
    let r = value & !(STACK_WORD_BYTES - 1);
    assert(r % 4 == 0 && r <= value && value < r + 4) by (bit_vector)
        requires
            r == value & !3usize,
    ;
    r
}

/// The painted part of a stack: word-aligned `start` to `end`, and the
/// headroom it stands for before anything overwrote it.
#[derive(Clone, Copy, Debug, PartialEq, Eq, Structural)]
pub struct WatermarkRange {
    /// First painted address.
    pub start: usize,
    /// End of the painted range.
    pub end: usize,
    /// Distance from the stack bottom to `end`.
    pub min_headroom: usize,
}

/// The range painted on a stack from `bottom` to `top` while the stack
/// pointer is at `sp`: from above the reserved guard area to below the
/// safety margin under `sp` (never above `top`), both rounded inward to
/// whole words; none when that leaves nothing.
pub open spec fn spec_watermark_range(bottom: usize, top: usize, sp: usize) -> Option<WatermarkRange> {
    let start = word_ceil(bottom + STACK_WATERMARK_RESERVED_BYTES);
    let end = word_floor(min_int(sat_sub(sp as int, STACK_WATERMARK_SAFETY_BYTES as int), top as int));
    if end <= start {
        None
    } else {
        Some(WatermarkRange { start: start as usize, end: end as usize, min_headroom: (end - bottom) as usize })
    }
}

/// The range to paint on a stack from `bottom` to `top` at stack pointer
/// `sp`, if any.
pub fn watermark_range(bottom: usize, top: usize, sp: usize) -> (r: Option<WatermarkRange>)
    requires
        bottom + STACK_WATERMARK_RESERVED_BYTES + STACK_WORD_BYTES - 1 <= usize::MAX,
    ensures
        r == spec_watermark_range(bottom, top, sp),
{
    let start = align_up(bottom.saturating_add(STACK_WATERMARK_RESERVED_BYTES));
    let below_sp = sp.saturating_sub(STACK_WATERMARK_SAFETY_BYTES);
    let limit = if below_sp < top {
        below_sp
    } else {
        top
    };
    let end = align_down(limit);
    if end <= start {
        return None;
    }
    Some(WatermarkRange { start, end, min_headroom: end.saturating_sub(bottom) })
}

/// The range to paint on CPU0's stack, from `bottom` to `top`, with the
/// stack pointer at `sp`.
pub fn init_cpu0_stack_watermark(bottom: usize, top: usize, sp: usize) -> (r: Option<WatermarkRange>)
    requires
        bottom + STACK_WATERMARK_RESERVED_BYTES + STACK_WORD_BYTES - 1 <= usize::MAX,
    ensures
        r == spec_watermark_range(bottom, top, sp),
{
    watermark_range(bottom, top, sp)
}

/// The range to paint on CPU1's stack, from `bottom` to `top` as
/// registered, with the stack pointer at `sp`; none while no stack is
/// registered (`bottom` zero or `top` not above it).
pub fn init_cpu1_stack_watermark(bottom: usize, top: usize, sp: usize) -> (r: Option<WatermarkRange>)
    requires
        bottom + STACK_WATERMARK_RESERVED_BYTES + STACK_WORD_BYTES - 1 <= usize::MAX,
    ensures
        r == if bottom == 0 || top <= bottom {
            None
        } else {
            spec_watermark_range(bottom, top, sp)
        },
{
    if bottom == 0 || top <= bottom {
        return None;
    }
    watermark_range(bottom, top, sp)
}

/// The index of the first word of `words` that no longer holds the pattern;
/// the length when all do.
pub open spec fn first_unpainted(words: Seq<u32>) -> nat
    decreases words.len(),
{
    if words.len() == 0 {
        0
    } else if words[0] != STACK_WATERMARK_PATTERN {
        0
    } else {
        1 + first_unpainted(words.drop_first())
    }
}

proof fn lemma_first_unpainted(words: Seq<u32>, i: int)
    requires
        0 <= i <= words.len(),
        forall|k: int| 0 <= k < i ==> words[k] == STACK_WATERMARK_PATTERN,
    ensures
        i < words.len() && words[i] != STACK_WATERMARK_PATTERN ==> first_unpainted(words) == i,
        i == words.len() ==> first_unpainted(words) == words.len(),
    decreases i,
{
    if i > 0 {
        lemma_first_unpainted(words.drop_first(), i - 1);
    }
}

/// What a scan of the painted range `start` to `end`, holding `words`, of
/// a stack with the given `bottom` finds: the distance from the bottom to
/// the first overwritten word, or to `end` when none was; none while
/// nothing was painted.
pub open spec fn spec_scan(bottom: usize, start: usize, end: usize, words: Seq<u32>) -> Option<usize> {
    if start == 0 || end <= start {
        None
    } else {
        Some(
            sat_sub(
                if first_unpainted(words) < words.len() {
                    start + STACK_WORD_BYTES * first_unpainted(words)
                } else {
                    end as int
                },
                bottom as int,
            ) as usize,
        )
    }
}

/// The headroom left on a stack with the given `bottom` whose painted range
/// `start` to `end` now holds `words`: the distance from the bottom to the
/// first overwritten word, or to `end` when none was. None while nothing
/// was painted.
pub fn scan_stack_watermark(bottom: usize, start: usize, end: usize, words: &[u32]) -> (r: Option<usize>)
    requires
        start == 0 || end <= start || words@.len() == (end - start) / (STACK_WORD_BYTES as int),
    ensures
        r == spec_scan(bottom, start, end, words@),
{
    if start == 0 || end <= start {
        return None;
    }
    let mut i: usize = 0;
    while i < words.len()
        invariant
            i <= words@.len(),
            words@.len() == (end - start) / (STACK_WORD_BYTES as int),
            0 < start < end,
            forall|k: int| 0 <= k < i ==> words@[k] == STACK_WATERMARK_PATTERN,
        decreases words@.len() - i,
    {
        if words[i] != STACK_WATERMARK_PATTERN {
            proof {
                lemma_first_unpainted(words@, i as int);
            }
            let address = start + STACK_WORD_BYTES * i;
            return Some(address.saturating_sub(bottom));
        }
        i = i + 1;
    }
    proof {
        lemma_first_unpainted(words@, i as int);
    }
    Some(end.saturating_sub(bottom))
}

/// A scan finds the deepest overwritten word: of a painted range `start`
/// to `end` holding `words`, when word `j` is the lowest one that no longer
/// holds the pattern (all below it still do), the headroom found is the
/// distance from the stack bottom to that word, `start + 4 * j - bottom`
/// (at least zero); when every word still holds the pattern it is the
/// distance to `end`; nothing was found only when nothing was painted.
pub proof fn lemma_scan_finds_lowest_overwrite(
    bottom: usize,
    start: usize,
    end: usize,
    words: Seq<u32>,
    r: Option<usize>,
)
    requires
        start == 0 || end <= start || words.len() == (end - start) / (STACK_WORD_BYTES as int),
        r == spec_scan(bottom, start, end, words),
    ensures
        r is None <==> (start == 0 || end <= start),
        forall|j: int|
            0 <= j < words.len() && #[trigger] words[j] != STACK_WATERMARK_PATTERN && (forall|k: int|
                0 <= k < j ==> words[k] == STACK_WATERMARK_PATTERN) && r is Some ==> r->0
                == (if start + 4 * j >= bottom {
                start + 4 * j - bottom
            } else {
                0
            }),
        (forall|k: int| 0 <= k < words.len() ==> #[trigger] words[k] == STACK_WATERMARK_PATTERN) && r is Some
            ==> r->0 == (if end >= bottom {
            end - bottom
        } else {
            0
        }),
{
    assert forall|j: int|
        0 <= j < words.len() && #[trigger] words[j] != STACK_WATERMARK_PATTERN && (forall|k: int|
            0 <= k < j ==> words[k] == STACK_WATERMARK_PATTERN) && r is Some implies r->0 == (if start
        + 4 * j >= bottom {
        start + 4 * j - bottom
    } else {
        0
    }) by {
        lemma_first_unpainted(words, j);
        assert(start + 4 * j < end);
    }
    if forall|k: int| 0 <= k < words.len() ==> #[trigger] words[k] == STACK_WATERMARK_PATTERN {
        lemma_first_unpainted(words, words.len() as int);
    }
}

/// The lowest headroom CPU0's stack has shown: what a scan of its painted
/// range finds, or `recorded` while nothing was painted.
pub fn update_cpu0_stack_watermark(recorded: usize, bottom: usize, start: usize, end: usize, words: &[u32]) -> (r: usize)
    requires
        start == 0 || end <= start || words@.len() == (end - start) / (STACK_WORD_BYTES as int),
    ensures
        r == match spec_scan(bottom, start, end, words@) {
            Some(h) => h,
            None => recorded,
        },
{
    match scan_stack_watermark(bottom, start, end, words) {
        Some(headroom) => headroom,
        None => recorded,
    }
}

/// The lowest headroom CPU1's stack has shown: what a scan of its painted
/// range finds, or `recorded` while nothing was painted. CPU1 scans its own
/// stack.
pub fn update_cpu1_stack_watermark(recorded: usize, bottom: usize, start: usize, end: usize, words: &[u32]) -> (r: usize)
    requires
        start == 0 || end <= start || words@.len() == (end - start) / (STACK_WORD_BYTES as int),
    ensures
        r == match spec_scan(bottom, start, end, words@) {
            Some(h) => h,
            None => recorded,
        },
{
    match scan_stack_watermark(bottom, start, end, words) {
        Some(headroom) => headroom,
        None => recorded,
    }
}

/// A stack's span and its live headroom.
#[derive(Clone, Copy, Debug, PartialEq, Eq, Structural)]
pub struct StackSnapshot {
    /// Usable span from the bottom to the top.
    pub size: usize,
    /// Distance from the stack pointer to the bottom.
    pub headroom: usize,
}

/// CPU0's stack from `bottom` to `top`, with the stack pointer at `sp`.
pub fn cpu0_stack_snapshot(sp: usize, bottom: usize, top: usize) -> (r: StackSnapshot)
    ensures
        r.size == sat_sub(top as int, bottom as int),
        r.headroom == sat_sub(sp as int, bottom as int),
{
    StackSnapshot { size: top.saturating_sub(bottom), headroom: sp.saturating_sub(bottom) }
}

/// Statistics of one heap, as the allocator reports them.
#[derive(Clone, Copy, Debug, PartialEq, Eq, Structural)]
pub struct AllocatorStats {
    /// Bytes under management.
    pub size: usize,
    /// Bytes in use.
    pub current_usage: usize,
    /// Most bytes ever in use.
    pub max_usage: usize,
    /// Bytes allocated since start-up.
    pub total_allocated: u64,
    /// Bytes freed since start-up.
    pub total_freed: u64,
}

/// Heap and stack usage at one moment.
#[derive(Clone, Copy, Debug, PartialEq, Eq, Structural)]
pub struct HeapSnapshot {
    pub internal_size: usize,
    pub internal_used: usize,
    pub internal_free: usize,
    pub internal_peak_used: usize,
    pub internal_total_allocated: u64,
    pub internal_total_freed: u64,
    pub psram_size: usize,
    pub psram_used: usize,
    pub psram_free: usize,
    pub psram_peak_used: usize,
    pub cpu0_stack_size: usize,
    pub cpu0_stack_headroom: usize,
    pub cpu0_stack_min_headroom: usize,
    pub cpu1_stack_size: usize,
    pub cpu1_stack_min_headroom: usize,
}

impl HeapSnapshot {
    /// Combine the two heaps' statistics and the stacks' measurements; free
    /// bytes are the size less the usage, at least zero.
    pub fn capture(
        internal: AllocatorStats,
        psram: AllocatorStats,
        cpu0: StackSnapshot,
        cpu0_min_headroom: usize,
        cpu1_bottom: usize,
        cpu1_top: usize,
        cpu1_min_headroom: usize,
    ) -> (r: HeapSnapshot)
        ensures
            r == (HeapSnapshot {
                internal_size: internal.size,
                internal_used: internal.current_usage,
                internal_free: sat_sub(internal.size as int, internal.current_usage as int) as usize,
                internal_peak_used: internal.max_usage,
                internal_total_allocated: internal.total_allocated,
                internal_total_freed: internal.total_freed,
                psram_size: psram.size,
                psram_used: psram.current_usage,
                psram_free: sat_sub(psram.size as int, psram.current_usage as int) as usize,
                psram_peak_used: psram.max_usage,
                cpu0_stack_size: cpu0.size,
                cpu0_stack_headroom: cpu0.headroom,
                cpu0_stack_min_headroom: cpu0_min_headroom,
                cpu1_stack_size: sat_sub(cpu1_top as int, cpu1_bottom as int) as usize,
                cpu1_stack_min_headroom: cpu1_min_headroom,
            }),
    {
        HeapSnapshot {
            internal_size: internal.size,
            internal_used: internal.current_usage,
            internal_free: internal.size.saturating_sub(internal.current_usage),
            internal_peak_used: internal.max_usage,
            internal_total_allocated: internal.total_allocated,
            internal_total_freed: internal.total_freed,
            psram_size: psram.size,
            psram_used: psram.current_usage,
            psram_free: psram.size.saturating_sub(psram.current_usage),
            psram_peak_used: psram.max_usage,
            cpu0_stack_size: cpu0.size,
            cpu0_stack_headroom: cpu0.headroom,
            cpu0_stack_min_headroom: cpu0_min_headroom,
            cpu1_stack_size: cpu1_top.saturating_sub(cpu1_bottom),
            cpu1_stack_min_headroom: cpu1_min_headroom,
        }
    }
}

/// The figures of a memory report, in whole KiB (rounded down).
#[derive(Clone, Copy, Debug, PartialEq, Eq, Structural)]
pub struct MemoryReport {
    pub internal_used_kib: usize,
    pub internal_size_kib: usize,
    pub internal_free_kib: usize,
    pub internal_peak_kib: usize,
    pub psram_used_kib: usize,
    pub psram_size_kib: usize,
    pub psram_free_kib: usize,
    pub psram_peak_kib: usize,
    pub cpu0_stack_kib: usize,
    pub cpu0_current_kib: usize,
    pub cpu0_min_kib: usize,
    pub cpu1_stack_kib: usize,
    pub cpu1_min_kib: usize,
}

/// The report of snapshot `s`: each figure in whole KiB.
pub fn report(s: &HeapSnapshot) -> (r: MemoryReport)
    ensures
        r == (MemoryReport {
            internal_used_kib: s.internal_used / 1024,
            internal_size_kib: s.internal_size / 1024,
            internal_free_kib: s.internal_free / 1024,
            internal_peak_kib: s.internal_peak_used / 1024,
            psram_used_kib: s.psram_used / 1024,
            psram_size_kib: s.psram_size / 1024,
            psram_free_kib: s.psram_free / 1024,
            psram_peak_kib: s.psram_peak_used / 1024,
            cpu0_stack_kib: s.cpu0_stack_size / 1024,
            cpu0_current_kib: s.cpu0_stack_headroom / 1024,
            cpu0_min_kib: s.cpu0_stack_min_headroom / 1024,
            cpu1_stack_kib: s.cpu1_stack_size / 1024,
            cpu1_min_kib: s.cpu1_stack_min_headroom / 1024,
        }),
{
    MemoryReport {
        internal_used_kib: s.internal_used / 1024,
        internal_size_kib: s.internal_size / 1024,
        internal_free_kib: s.internal_free / 1024,
        internal_peak_kib: s.internal_peak_used / 1024,
        psram_used_kib: s.psram_used / 1024,
        psram_size_kib: s.psram_size / 1024,
        psram_free_kib: s.psram_free / 1024,
        psram_peak_kib: s.psram_peak_used / 1024,
        cpu0_stack_kib: s.cpu0_stack_size / 1024,
        cpu0_current_kib: s.cpu0_stack_headroom / 1024,
        cpu0_min_kib: s.cpu0_stack_min_headroom / 1024,
        cpu1_stack_kib: s.cpu1_stack_size / 1024,
        cpu1_min_kib: s.cpu1_stack_min_headroom / 1024,
    }
}

/// How tight internal memory is.
#[derive(Clone, Copy, Debug, PartialEq, Eq, Structural)]
pub enum HeapPressure {
    /// More than `INTERNAL_WARN_FREE_BYTES` free.
    Normal,
    /// At most `INTERNAL_WARN_FREE_BYTES` free.
    Low,
    /// At most `INTERNAL_CRITICAL_FREE_BYTES` free.
    Critical,
}

/// The pressure of `free_bytes` free internal bytes.
pub open spec fn spec_pressure_for(free_bytes: usize) -> HeapPressure {
    if free_bytes <= INTERNAL_CRITICAL_FREE_BYTES {
        HeapPressure::Critical
    } else if free_bytes <= INTERNAL_WARN_FREE_BYTES {
        HeapPressure::Low
    } else {
        HeapPressure::Normal
    }
}

/// The pressure of `free_bytes` free internal bytes.
pub fn pressure_for(free_bytes: usize) -> (r: HeapPressure)
    ensures
        r == spec_pressure_for(free_bytes),
{
    if free_bytes <= INTERNAL_CRITICAL_FREE_BYTES {
        HeapPressure::Critical
    } else if free_bytes <= INTERNAL_WARN_FREE_BYTES {
        HeapPressure::Low
    } else {
        HeapPressure::Normal
    }
}

/// The start of a window watching allocator activity during a named CPU0
/// operation.
#[derive(Clone, Copy, Debug)]
pub struct HeapActivityProbe {
    /// The operation.
    pub label: &'static str,
    /// Usage when it began.
    pub before: HeapSnapshot,
}

/// Allocator activity seen during a watched operation. Other work shares
/// the allocator, so it shows overlap, not cause.
#[derive(Clone, Copy, Debug)]
pub struct HeapActivity {
    /// The operation.
    pub label: &'static str,
    /// Bytes allocated meanwhile.
    pub allocated: u64,
    /// Bytes freed meanwhile.
    pub freed: u64,
    /// Change of the bytes in use.
    pub live_delta: isize,
    /// The operation kept heap: `live_delta` is positive.
    pub retained: bool,
}

/// What a periodic report says beyond the current snapshot.
#[derive(Clone, Copy, Debug, PartialEq, Eq, Structural)]
pub struct PeriodicReport {
    /// The lowest internal free bytes seen so far.
    pub min_internal_free: usize,
    /// Bytes allocated since the previous report.
    pub allocated_delta: u64,
    /// Bytes freed since the previous report.
    pub freed_delta: u64,
}

/// What one poll found: a change of pressure, and a periodic report when
/// one was due.
#[derive(Clone, Copy, Debug, PartialEq, Eq, Structural)]
pub struct PollOutcome {
    /// The new pressure, when it changed.
    pub pressure_changed: Option<HeapPressure>,
    /// The periodic report, when due.
    pub periodic: Option<PeriodicReport>,
}

/// `a - b` for unsigned counters, or zero when `b` is larger.
pub open spec fn sat_sub_u64(a: u64, b: u64) -> u64 {
    if a >= b {
        (a - b) as u64
    } else {
        0
    }
}

/// Long-lived internal memory monitor: tracks the lowest free internal
/// memory, the pressure level, the periodic report, and one watched
/// operation at a time.
pub struct HeapMonitor {
    /// Lowest internal free bytes seen.
    pub min_internal_free: usize,
    /// When the last periodic report was made, in milliseconds.
    pub last_periodic_report_ms: u64,
    /// Bytes allocated at that report.
    pub last_periodic_allocated: u64,
    /// Bytes freed at that report.
    pub last_periodic_freed: u64,
    /// The operation being watched.
    pub pending_activity: Option<HeapActivityProbe>,
    /// The current pressure.
    pub pressure: HeapPressure,
}

impl HeapMonitor {
    /// Start monitoring at `now_ms` from `snapshot`.
    pub fn new(now_ms: u64, snapshot: HeapSnapshot) -> (r: HeapMonitor)
        ensures
            r.min_internal_free == snapshot.internal_free,
            r.last_periodic_report_ms == now_ms,
            r.last_periodic_allocated == snapshot.internal_total_allocated,
            r.last_periodic_freed == snapshot.internal_total_freed,
            r.pending_activity is None,
            r.pressure == spec_pressure_for(snapshot.internal_free),
    {
        HeapMonitor {
            min_internal_free: snapshot.internal_free,
            last_periodic_report_ms: now_ms,
            last_periodic_allocated: snapshot.internal_total_allocated,
            last_periodic_freed: snapshot.internal_total_freed,
            pending_activity: None,
            pressure: pressure_for(snapshot.internal_free),
        }
    }

    fn observe(&mut self, snapshot: HeapSnapshot)
        ensures
            final(self).min_internal_free == min_int(
                old(self).min_internal_free as int,
                snapshot.internal_free as int,
            ),
            final(self).last_periodic_report_ms == old(self).last_periodic_report_ms,
            final(self).last_periodic_allocated == old(self).last_periodic_allocated,
            final(self).last_periodic_freed == old(self).last_periodic_freed,
            final(self).pending_activity == old(self).pending_activity,
            final(self).pressure == old(self).pressure,
    {
        if snapshot.internal_free < self.min_internal_free {
            self.min_internal_free = snapshot.internal_free;
        }
    }

    /// Take `snapshot` as a checkpoint: it counts toward the lowest free
    /// memory and becomes the base of the next periodic deltas.
    pub fn checkpoint(&mut self, snapshot: HeapSnapshot)
        ensures
            final(self).min_internal_free == min_int(
                old(self).min_internal_free as int,
                snapshot.internal_free as int,
            ),
            final(self).last_periodic_allocated == snapshot.internal_total_allocated,
            final(self).last_periodic_freed == snapshot.internal_total_freed,
            final(self).last_periodic_report_ms == old(self).last_periodic_report_ms,
            final(self).pending_activity == old(self).pending_activity,
            final(self).pressure == old(self).pressure,
    {
        self.observe(snapshot);
        self.last_periodic_allocated = snapshot.internal_total_allocated;
        self.last_periodic_freed = snapshot.internal_total_freed;
    }

    /// Start watching the operation `label`, with usage `before`.
    pub fn begin_activity(&mut self, label: &'static str, before: HeapSnapshot)
        ensures
            final(self).pending_activity == Some(HeapActivityProbe { label, before }),
            final(self).min_internal_free == old(self).min_internal_free,
            final(self).last_periodic_report_ms == old(self).last_periodic_report_ms,
            final(self).last_periodic_allocated == old(self).last_periodic_allocated,
            final(self).last_periodic_freed == old(self).last_periodic_freed,
            final(self).pressure == old(self).pressure,
    {
        self.pending_activity = Some(HeapActivityProbe { label, before });
    }

    /// Stop watching, with usage `after`. Returns the activity seen, when
    /// anything was allocated or freed or the usage changed; nothing when
    /// no operation was watched.
    pub fn end_activity(&mut self, after: HeapSnapshot) -> (r: Option<HeapActivity>)
        requires
            after.internal_used <= isize::MAX,
            old(self).pending_activity matches Some(p) ==> p.before.internal_used <= isize::MAX,
        ensures
            final(self).pending_activity is None,
            final(self).last_periodic_report_ms == old(self).last_periodic_report_ms,
            final(self).last_periodic_allocated == old(self).last_periodic_allocated,
            final(self).last_periodic_freed == old(self).last_periodic_freed,
            final(self).pressure == old(self).pressure,
            match old(self).pending_activity {
                None => r is None && final(self).min_internal_free == old(self).min_internal_free,
                Some(p) => {
                    let allocated = sat_sub_u64(after.internal_total_allocated, p.before.internal_total_allocated);
                    let freed = sat_sub_u64(after.internal_total_freed, p.before.internal_total_freed);
                    let delta = after.internal_used - p.before.internal_used;
                    &&& final(self).min_internal_free == min_int(
                        old(self).min_internal_free as int,
                        after.internal_free as int,
                    )
                    &&& (r is Some <==> allocated != 0 || freed != 0 || delta != 0)
                    &&& r matches Some(a) ==> {
                        &&& a.label == p.label
                        &&& a.allocated == allocated
                        &&& a.freed == freed
                        &&& a.live_delta == delta
                        &&& a.retained == (delta > 0)
                    }
                },
            },
    {
        let probe = match self.pending_activity {
            Some(p) => p,
            None => {
                return None;
            },
        };
        self.pending_activity = None;
        self.observe(after);
        let allocated = after.internal_total_allocated.saturating_sub(probe.before.internal_total_allocated);
        let freed = after.internal_total_freed.saturating_sub(probe.before.internal_total_freed);
        let live_delta: isize = after.internal_used as isize - probe.before.internal_used as isize;
        if allocated != 0 || freed != 0 || live_delta != 0 {
            Some(HeapActivity { label: probe.label, allocated, freed, live_delta, retained: live_delta > 0 })
        } else {
            None
        }
    }

    /// Whether the periodic report is due at `now_ms`: the shell refreshes
    /// the stack watermark before taking the snapshot it polls with.
    pub fn periodic_due(&self, now_ms: u64) -> (r: bool)
        requires
            now_ms >= self.last_periodic_report_ms,
        ensures
            r == (now_ms - self.last_periodic_report_ms >= PERIODIC_REPORT_INTERVAL_MS),
    {
        now_ms - self.last_periodic_report_ms >= PERIODIC_REPORT_INTERVAL_MS
    }

    /// Poll at `now_ms` with the current `snapshot`: record the lowest free
    /// memory, report a change of pressure, and, every
    /// `PERIODIC_REPORT_INTERVAL_MS`, report what was allocated and freed
    /// since the previous report.
    pub fn poll(&mut self, now_ms: u64, snapshot: HeapSnapshot) -> (r: PollOutcome)
        requires
            now_ms >= old(self).last_periodic_report_ms,
        ensures
            ({
                let due = now_ms - old(self).last_periodic_report_ms >= PERIODIC_REPORT_INTERVAL_MS;
                let pressure = spec_pressure_for(snapshot.internal_free);
                let lowest = min_int(old(self).min_internal_free as int, snapshot.internal_free as int);
                &&& final(self).min_internal_free == lowest
                &&& final(self).pressure == pressure
                &&& r.pressure_changed == if pressure != old(self).pressure {
                    Some(pressure)
                } else {
                    None
                }
                &&& final(self).pending_activity == old(self).pending_activity
                &&& if due {
                    &&& final(self).last_periodic_report_ms == now_ms
                    &&& final(self).last_periodic_allocated == snapshot.internal_total_allocated
                    &&& final(self).last_periodic_freed == snapshot.internal_total_freed
                    &&& r.periodic == Some(
                        PeriodicReport {
                            min_internal_free: lowest as usize,
                            allocated_delta: sat_sub_u64(
                                snapshot.internal_total_allocated,
                                old(self).last_periodic_allocated,
                            ),
                            freed_delta: sat_sub_u64(
                                snapshot.internal_total_freed,
                                old(self).last_periodic_freed,
                            ),
                        },
                    )
                } else {
                    &&& final(self).last_periodic_report_ms == old(self).last_periodic_report_ms
                    &&& final(self).last_periodic_allocated == old(self).last_periodic_allocated
                    &&& final(self).last_periodic_freed == old(self).last_periodic_freed
                    &&& r.periodic is None
                }
            }),
    {
        let periodic_report = now_ms - self.last_periodic_report_ms >= PERIODIC_REPORT_INTERVAL_MS;
        self.observe(snapshot);
        let pressure = pressure_for(snapshot.internal_free);
        let mut pressure_changed = None;
        if pressure != self.pressure {
            self.pressure = pressure;
            pressure_changed = Some(pressure);
        }
        let mut periodic = None;
        if periodic_report {
            self.last_periodic_report_ms = now_ms;
            let allocated_delta = snapshot.internal_total_allocated.saturating_sub(self.last_periodic_allocated);
            let freed_delta = snapshot.internal_total_freed.saturating_sub(self.last_periodic_freed);
            self.last_periodic_allocated = snapshot.internal_total_allocated;
            self.last_periodic_freed = snapshot.internal_total_freed;
            periodic = Some(PeriodicReport { min_internal_free: self.min_internal_free, allocated_delta, freed_delta });
        }
        PollOutcome { pressure_changed, periodic }
    }
}

/// The lowest free memory the monitor records never rises: after any
/// operation that records a snapshot (`poll`, `checkpoint`, `end_activity`),
/// the recorded minimum is at most the one before and at most the
/// snapshot's free bytes.
pub proof fn lemma_min_free_never_rises(before: HeapMonitor, after: HeapMonitor, snapshot: HeapSnapshot)
    requires
        after.min_internal_free == min_int(before.min_internal_free as int, snapshot.internal_free as int),
    ensures
        after.min_internal_free <= before.min_internal_free,
        after.min_internal_free <= snapshot.internal_free,
{
}

/// Painting never touches the guard area or the live stack: a painted
/// range is word aligned, starts at least `STACK_WATERMARK_RESERVED_BYTES`
/// above the bottom, and ends at most at the top and at least
/// `STACK_WATERMARK_SAFETY_BYTES` below the stack pointer.
pub proof fn lemma_watermark_range_safe(bottom: usize, top: usize, sp: usize)
    requires
        bottom + STACK_WATERMARK_RESERVED_BYTES + STACK_WORD_BYTES - 1 <= usize::MAX,
    ensures
        spec_watermark_range(bottom, top, sp) matches Some(w) ==> {
            &&& w.start % STACK_WORD_BYTES == 0
            &&& w.end % STACK_WORD_BYTES == 0
            &&& bottom + STACK_WATERMARK_RESERVED_BYTES <= w.start < w.end
            &&& w.end <= top
            &&& w.end + STACK_WATERMARK_SAFETY_BYTES <= sp
            &&& w.min_headroom == w.end - bottom
        },
{
}

/// Less free memory never means less pressure.
pub proof fn lemma_pressure_monotonic(less: usize, more: usize)
    requires
        less <= more,
    ensures
        spec_pressure_for(more) == HeapPressure::Critical ==> spec_pressure_for(less)
            == HeapPressure::Critical,
        spec_pressure_for(more) == HeapPressure::Low ==> spec_pressure_for(less)
            != HeapPressure::Normal,
{
}

} // verus!
