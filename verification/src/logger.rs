//! The log history kept for the on-device log view.
//!
//! Every record is also printed on the serial port by the firmware shell;
//! the newest records, each ending in a newline, are kept here in a byte
//! ring. A revision counter tells readers when the history changed.

use vstd::prelude::*;
use vstd::string::StringSliceAdditionalSpecFns;

use crate::network::{wrap_inc, wrapping_inc};
use crate::ring::{trim_for, PsramByteRing};

verus! {

/// Maximum number of rows the log model is sized for.
pub const MAX_LOG_ROWS: usize = 64;
/// Byte budget per row; only sizes the ring.
pub const LOG_BYTES_PER_ROW_BUDGET: usize = 64;
/// Capacity of the history ring.
pub const HISTORY_BYTES: usize = 4096;
/// Bytes copied per step of a snapshot.
pub const SNAPSHOT_CHUNK_BYTES: usize = 512;

/// Fixed budget for one formatted log record, newline included.
pub const LOG_RECORD_BYTES: usize = 512;
/// What ends a record that did not fit its budget.
pub const TRUNCATION_MARK: usize = 4;

/// `b` continues a multi-byte UTF-8 character.
pub open spec fn is_continuation(b: u8) -> bool {
    128 <= b as int && (b as int) < 192
}

/// The length a record overflowing its budget is cut to: the longest
/// prefix of at most `LOG_RECORD_BYTES - TRUNCATION_MARK` bytes that ends on
/// a character boundary.
pub open spec fn is_cut(text: Seq<u8>, k: int) -> bool {
    &&& 0 <= k <= LOG_RECORD_BYTES - TRUNCATION_MARK
    &&& k <= text.len()
    &&& (k == 0 || k == text.len() || !is_continuation(text[k]))
    &&& (text.len() <= LOG_RECORD_BYTES - TRUNCATION_MARK ==> k == text.len())
    &&& forall|j: int|
        k < j && j < text.len() && j <= LOG_RECORD_BYTES - TRUNCATION_MARK ==> is_continuation(
            #[trigger] text[j],
        )
}

/// The record stored for a formatted line: the line and a newline; or,
/// when formatting overflowed or filled the budget, the line cut at a
/// character boundary to leave room for the mark `...` and a newline.
pub open spec fn framed_record(text: Seq<u8>, overflowed: bool, cut: int) -> Seq<u8> {
    if overflowed || text.len() == LOG_RECORD_BYTES {
        text.take(cut) + seq![46u8, 46u8, 46u8, crate::ring::NEWLINE]
    } else {
        text.push(crate::ring::NEWLINE)
    }
}

/// Frame one formatted log line as a stored record. Every record ends in a
/// newline, so records never merge in the history, and none exceeds
/// `LOG_RECORD_BYTES`.
pub fn frame_record(text: &[u8], overflowed: bool) -> (r: Vec<u8>)
    requires
        text@.len() <= LOG_RECORD_BYTES,
    ensures
        exists|cut: int| is_cut(text@, cut) && r@ == framed_record(text@, overflowed, cut),
        r@.len() <= LOG_RECORD_BYTES,
        r@.len() > 0 && r@[r@.len() - 1] == crate::ring::NEWLINE,
{
    let mut out: Vec<u8> = Vec::new();
    let truncate = overflowed || text.len() == LOG_RECORD_BYTES;
    let limit = LOG_RECORD_BYTES - TRUNCATION_MARK;
    let mut cut: usize = if text.len() < limit {
        text.len()
    } else {
        limit
    };
    loop
        invariant
            cut <= limit,
            cut <= text@.len(),
            limit == LOG_RECORD_BYTES - TRUNCATION_MARK,
            text@.len() <= LOG_RECORD_BYTES,
            text@.len() <= limit ==> cut == text@.len(),
            forall|j: int|
                cut < j && j < text@.len() && j <= limit ==> is_continuation(#[trigger] text@[j]),
        ensures
            is_cut(text@, cut as int),
        decreases cut,
    {
        if cut == 0 || cut >= text.len() {
            break;
        }
        let b = text[cut];
        if b < 128 || b >= 192 {
            break;
        }
        cut = cut - 1;
    }
    let end = if truncate {
        cut
    } else {
        text.len()
    };
    let mut i: usize = 0;
    while i < end
        invariant
            i <= end,
            end <= text@.len(),
            out@ == text@.take(i as int),
        decreases end - i,
    {
        out.push(text[i]);
        i = i + 1;
        assert(out@ =~= text@.take(i as int));
    }
    if truncate {
        out.push(46u8);
        out.push(46u8);
        out.push(46u8);
    }
    out.push(crate::ring::NEWLINE);
    proof {
        assert(is_cut(text@, cut as int));
        if truncate {
            assert(out@ =~= text@.take(cut as int) + seq![46u8, 46u8, 46u8, crate::ring::NEWLINE]);
        } else {
            assert(text@.take(end as int) =~= text@);
            assert(out@ =~= text@.push(crate::ring::NEWLINE));
        }
        assert(out@ == framed_record(text@, overflowed, cut as int));
    }
    out
}

/// `k` is where a text piece of `text` that may take at most `limit` bytes
/// is cut: the largest character boundary that is no further than `limit`.
pub open spec fn is_boundary_cut(text: Seq<u8>, limit: int, k: int) -> bool {
    &&& 0 <= k <= limit
    &&& k <= text.len()
    &&& (k == 0 || k == text.len() || !is_continuation(text[k]))
    &&& (text.len() <= limit ==> k == text.len())
    &&& forall|j: int| k < j && j < text.len() && j <= limit ==> is_continuation(#[trigger] text[j])
}

/// How much of a text piece fits in `remaining` bytes without splitting a
/// character: all of it when it fits, otherwise the longest prefix that
/// ends on a character boundary.
pub fn char_boundary_at_most(text: &[u8], remaining: usize) -> (r: usize)
    ensures
        is_boundary_cut(text@, remaining as int, r as int),
{
    if text.len() <= remaining {
        return text.len();
    }
    let mut keep = remaining;
    loop
        invariant
            keep <= remaining,
            remaining < text@.len(),
            forall|j: int| keep < j && j < text@.len() && j <= remaining ==> is_continuation(#[trigger] text@[j]),
        ensures
            is_boundary_cut(text@, remaining as int, keep as int),
        decreases keep,
    {
        if keep == 0 {
            break;
        }
        let b = text[keep];
        if b < 128 || b >= 192 {
            break;
        }
        keep = keep - 1;
    }
    keep
}

/// `core::str::from_utf8`, which accepts a byte slice exactly when it is
/// valid UTF-8 and then gives the string with those bytes.
#[verifier::external_body]
pub(crate) fn utf8_str(bytes: &[u8]) -> (r: Option<&str>)
    ensures
        r is Some <==> vstd::utf8::valid_utf8(bytes@),
        r matches Some(s) ==> s.spec_bytes() == bytes@,
{
    core::str::from_utf8(bytes).ok()
}

/// What appending `bytes` does to a log store: capacity kept; an accepted
/// record (not empty, not longer than the capacity) goes in after the
/// oldest records made room and the revision advances by one, wrapping; a
/// refused one changes nothing.
pub open spec fn record_pushed(before: LogStore, after: LogStore, bytes: Seq<u8>) -> bool {
    &&& after.spec_capacity() == before.spec_capacity()
    &&& (bytes.len() > 0 && bytes.len() <= before.spec_capacity()) ==> {
        &&& after.spec_history() == trim_for(before.spec_history(), bytes.len(), before.spec_capacity())
            + bytes
        &&& after.spec_revision() == wrap_inc(before.spec_revision())
    }
    &&& !(bytes.len() > 0 && bytes.len() <= before.spec_capacity()) ==> after.spec_history()
        == before.spec_history() && after.spec_revision() == before.spec_revision()
}

/// The history revision counts records: a store made by `LogStore::new`
/// starts at revision zero with capacity `HISTORY_BYTES`; a framed record
/// (not empty, at most `LOG_RECORD_BYTES`, as `frame_record` gives) is
/// accepted by any store whose capacity holds such a record, so logging
/// exactly one record advances the revision by exactly one, wrapping, and
/// keeps the capacity for the next one.
pub proof fn lemma_record_advances_revision(before: LogStore, after: LogStore, record: Seq<u8>)
    requires
        before.spec_capacity() >= LOG_RECORD_BYTES,
        0 < record.len() <= LOG_RECORD_BYTES,
        record_pushed(before, after, record),
    ensures
        after.spec_revision() == wrap_inc(before.spec_revision()),
        after.spec_capacity() == before.spec_capacity(),
{
}

/// The log history and its revision.
pub struct LogStore {
    history: PsramByteRing,
    revision: u32,
}

impl LogStore {
    /// The bytes held, oldest first.
    pub closed spec fn spec_history(&self) -> Seq<u8> {
        self.history@
    }

    /// The revision.
    pub closed spec fn spec_revision(&self) -> u32 {
        self.revision
    }

    /// The ring capacity.
    pub closed spec fn spec_capacity(&self) -> nat {
        self.history.spec_capacity()
    }

    /// An empty history of `HISTORY_BYTES`, revision zero.
    pub fn new() -> (r: LogStore)
        ensures
            r.spec_history() == Seq::<u8>::empty(),
            r.spec_revision() == 0,
            r.spec_capacity() == HISTORY_BYTES,
    {
        LogStore { history: PsramByteRing::new(HISTORY_BYTES), revision: 0 }
    }

    /// Append one record. When the ring accepts it (it is not empty and not
    /// longer than the capacity), the oldest records make room and the
    /// revision advances by one, wrapping; otherwise nothing changes.
    pub fn push_back(&mut self, bytes: &[u8])
        ensures
            record_pushed(*old(self), *final(self), bytes@),
    {
        if self.history.push_line(bytes) {
            self.revision = wrapping_inc(self.revision);
        }
    }

    /// The revision: it changes with every stored record.
    pub fn revision(&self) -> (r: u32)
        ensures
            r == self.spec_revision(),
    {
        self.revision
    }

    /// The number of bytes held.
    pub fn len(&self) -> (r: usize)
        ensures
            r == self.spec_history().len(),
    {
        self.history.len()
    }

    /// Copy the history into `out`, as much as fits, in steps of
    /// `SNAPSHOT_CHUNK_BYTES`. Returns the number of bytes copied and the
    /// revision they belong to, or `None` when they are not valid UTF-8.
    /// Only the copied front of `out` changes.
    pub fn snapshot(&self, out: &mut [u8]) -> (r: Option<(usize, u32)>)
        ensures
            ({
                let n = if self.spec_history().len() < old(out)@.len() {
                    self.spec_history().len()
                } else {
                    old(out)@.len()
                };
                &&& final(out)@ == self.spec_history().take(n as int) + old(out)@.skip(n as int)
                &&& r is Some <==> vstd::utf8::valid_utf8(self.spec_history().take(n as int))
                &&& r matches Some(p) ==> p.0 == n && p.1 == self.spec_revision()
            }),
    {
        let len = if self.history.len() < out.len() {
            self.history.len()
        } else {
            out.len()
        };
        let mut offset: usize = 0;
        while offset < len
            invariant
                offset <= len,
                len <= self.spec_history().len(),
                len <= out@.len(),
                out@.len() == old(out)@.len(),
                forall|q: int| 0 <= q < offset ==> out@[q] == self.spec_history()[q],
                forall|q: int| offset <= q < out@.len() ==> out@[q] == old(out)@[q],
            decreases len - offset,
        {
            let end = if len - offset > SNAPSHOT_CHUNK_BYTES {
                offset + SNAPSHOT_CHUNK_BYTES
            } else {
                len
            };
            let copied = self.copy_chunk(offset, end, out);
            if copied != end - offset {
                // The ring always has these bytes; a short copy cannot happen.
                return None;
            }
            offset = end;
        }
        assert(out@ =~= self.spec_history().take(len as int) + old(out)@.skip(len as int));
        let text = vstd::slice::slice_subrange(out, 0, len);
        assert(text@ =~= self.spec_history().take(len as int));
        match utf8_str(text) {
            Some(_) => Some((len, self.revision)),
            None => None,
        }
    }

    /// Copy history bytes `offset` to `end - 1` into the same positions of
    /// `out`.
    fn copy_chunk(&self, offset: usize, end: usize, out: &mut [u8]) -> (r: usize)
        requires
            offset < end <= self.spec_history().len(),
            end <= old(out)@.len(),
        ensures
            r == end - offset,
            final(out)@.len() == old(out)@.len(),
            forall|q: int| 0 <= q < offset ==> final(out)@[q] == old(out)@[q],
            forall|q: int| offset <= q < end ==> final(out)@[q] == self.spec_history()[q],
            forall|q: int| end <= q < final(out)@.len() ==> final(out)@[q] == old(out)@[q],
    {
        let mut chunk: Vec<u8> = Vec::new();
        let mut k: usize = offset;
        while k < end
            invariant
                offset <= k <= end,
                chunk@.len() == k - offset,
            decreases end - k,
        {
            chunk.push(0);
            k = k + 1;
        }
        let copied = self.history.copy_range_to(offset, chunk.as_mut_slice());
        assert(chunk@ =~= self.spec_history().subrange(offset as int, end as int));
        let mut j: usize = 0;
        while j < copied
            invariant
                copied == end - offset,
                offset < end <= self.spec_history().len(),
                chunk@.len() == copied,
                j <= copied,
                chunk@ == self.spec_history().subrange(offset as int, end as int),
                out@.len() == old(out)@.len(),
                forall|q: int| 0 <= q < offset ==> out@[q] == old(out)@[q],
                forall|q: int| offset <= q < offset + j ==> out@[q] == self.spec_history()[q],
                forall|q: int| offset + j <= q < out@.len() ==> out@[q] == old(out)@[q],
                end <= out@.len(),
            decreases copied - j,
        {
            out[offset + j] = chunk[j];
            j = j + 1;
        }
        copied
    }
}

/// Snapshot storage for the log view: a private copy of the history, the
/// length of the valid text in it, and the revision it shows, plus scratch
/// storage that each new snapshot is taken into before it is accepted.
pub struct HistoryBuffer {
    bytes: Vec<u8>,
    scratch: Vec<u8>,
    len: usize,
    revision: u32,
}

impl HistoryBuffer {
    /// The storage has its size and the text lies inside it.
    pub closed spec fn wf(&self) -> bool {
        self.len <= self.bytes@.len() && self.bytes@.len() == HISTORY_BYTES && self.scratch@.len()
            == HISTORY_BYTES
    }

    /// The whole storage.
    pub closed spec fn spec_bytes(&self) -> Seq<u8> {
        self.bytes@
    }

    /// The number of text bytes.
    pub closed spec fn spec_len(&self) -> nat {
        self.len as nat
    }

    /// The revision shown; `u32::MAX` before the first refresh.
    pub closed spec fn spec_revision(&self) -> u32 {
        self.revision
    }

    /// The text shown.
    pub open spec fn spec_text(&self) -> Seq<u8> {
        self.spec_bytes().take(self.spec_len() as int)
    }

    fn zeroed() -> (r: Vec<u8>)
        ensures
            r@ == Seq::new(HISTORY_BYTES as nat, |i: int| 0u8),
    {
        let mut bytes: Vec<u8> = Vec::new();
        let mut i: usize = 0;
        while i < HISTORY_BYTES
            invariant
                i <= HISTORY_BYTES,
                bytes@ == Seq::new(i as nat, |k: int| 0u8),
            decreases HISTORY_BYTES - i,
        {
            bytes.push(0);
            i = i + 1;
        }
        bytes
    }

    /// Empty text, no revision shown yet.
    pub fn new() -> (r: HistoryBuffer)
        ensures
            r.wf(),
            r.spec_bytes() == Seq::new(HISTORY_BYTES as nat, |i: int| 0u8),
            r.spec_len() == 0,
            r.spec_revision() == u32::MAX,
    {
        HistoryBuffer { bytes: Self::zeroed(), scratch: Self::zeroed(), len: 0, revision: u32::MAX }
    }

    /// Take a new snapshot when the history's revision differs from the one
    /// shown. The snapshot is taken into scratch storage and shown only when
    /// it is valid UTF-8; returns true exactly then, that is only when the
    /// shown text changed to a new revision. Otherwise what is shown stays.
    pub fn refresh(&mut self, input: &LogStore) -> (r: bool)
        requires
            old(self).wf(),
        ensures
            final(self).wf(),
            input.spec_revision() == old(self).spec_revision() ==> !r && final(self).spec_bytes()
                == old(self).spec_bytes() && final(self).spec_len() == old(self).spec_len()
                && final(self).spec_revision() == old(self).spec_revision(),
            input.spec_revision() != old(self).spec_revision() ==> {
                let n = if input.spec_history().len() < HISTORY_BYTES {
                    input.spec_history().len()
                } else {
                    HISTORY_BYTES as nat
                };
                let text = input.spec_history().take(n as int);
                &&& r == vstd::utf8::valid_utf8(text)
                &&& r ==> final(self).spec_bytes() == text + old(self).spec_bytes().skip(n as int)
                    && final(self).spec_len() == n && final(self).spec_revision()
                    == input.spec_revision()
                &&& !r ==> final(self).spec_bytes() == old(self).spec_bytes() && final(self).spec_len()
                    == old(self).spec_len() && final(self).spec_revision() == old(self).spec_revision()
            },
    {
        if input.revision() == self.revision {
            return false;
        }
        let mut scratch: Vec<u8> = Vec::new();
        std::mem::swap(&mut scratch, &mut self.scratch);
        let snapshot = input.snapshot(scratch.as_mut_slice());
        match snapshot {
            Some((len, revision)) => {
                let ghost old_bytes = self.bytes@;
                let mut i: usize = 0;
                while i < len
                    invariant
                        i <= len,
                        len <= HISTORY_BYTES,
                        scratch@.len() == HISTORY_BYTES,
                        self.bytes@.len() == HISTORY_BYTES,
                        old_bytes.len() == HISTORY_BYTES,
                        forall|k: int| 0 <= k < i ==> self.bytes@[k] == scratch@[k],
                        forall|k: int| i <= k < HISTORY_BYTES ==> self.bytes@[k] == old_bytes[k],
                    decreases len - i,
                {
                    self.bytes.set(i, scratch[i]);
                    i = i + 1;
                }
                assert(self.bytes@ =~= scratch@.take(len as int) + old_bytes.skip(len as int));
                self.scratch = scratch;
                self.len = len;
                self.revision = revision;
                true
            },
            None => {
                self.scratch = scratch;
                false
            },
        }
    }

    /// The text shown, when it is valid UTF-8.
    pub fn text(&self) -> (r: Option<&str>)
        requires
            self.wf(),
        ensures
            r is Some <==> vstd::utf8::valid_utf8(self.spec_text()),
            r matches Some(s) ==> s.spec_bytes() == self.spec_text(),
    {
        let shown = vstd::slice::slice_subrange(self.bytes.as_slice(), 0, self.len);
        assert(shown@ =~= self.spec_text());
        utf8_str(shown)
    }
}

} // verus!
