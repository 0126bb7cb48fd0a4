//! A 2 KiB log store that keeps the newest record first, for a view that
//! lists the latest lines at the top.
//!
//! Records are newline-terminated. A new record goes in front; when it does
//! not fit, whole records are evicted from the back, oldest first.

use vstd::prelude::*;
use vstd::string::StringSliceAdditionalSpecFns;

use crate::logger::utf8_str;
use crate::ring::NEWLINE;

verus! {

/// Capacity of the store.
pub const MAX_LOG_SIZE: usize = 2048;

/// A storage position taken around the end of the buffer once.
pub open spec fn wrap(x: int) -> int {
    if x < MAX_LOG_SIZE {
        x
    } else {
        x - MAX_LOG_SIZE
    }
}

proof fn lemma_mod_wrap(x: int)
    requires
        0 <= x < 2 * MAX_LOG_SIZE,
    ensures
        x % (MAX_LOG_SIZE as int) == wrap(x),
{
    if x < MAX_LOG_SIZE {
        vstd::arithmetic::div_mod::lemma_small_mod(x as nat, MAX_LOG_SIZE as nat);
    } else {
        vstd::arithmetic::div_mod::lemma_small_mod((x - MAX_LOG_SIZE) as nat, MAX_LOG_SIZE as nat);
        vstd::arithmetic::div_mod::lemma_mod_sub_multiples_vanish(x, MAX_LOG_SIZE as int);
    }
}

/// How far position `p` lies after position `head`, going around the end of
/// the buffer.
pub open spec fn distance(head: int, p: int) -> int {
    if p >= head {
        p - head
    } else {
        p - head + MAX_LOG_SIZE
    }
}

/// `k` is the last newline of `s` before position `bound`.
pub open spec fn is_last_newline_before(s: Seq<u8>, bound: int, k: int) -> bool {
    &&& 0 <= k < bound
    &&& s[k] == NEWLINE
    &&& forall|j: int| k < j < bound ==> s[j] != NEWLINE
}

/// `s` without its last record: everything up to and including the last
/// newline before the final byte, or nothing when there is none.
pub open spec fn drop_last_line(s: Seq<u8>) -> Seq<u8> {
    if exists|k: int| #[trigger] is_last_newline_before(s, s.len() - 1, k) {
        s.take((choose|k: int| #[trigger] is_last_newline_before(s, s.len() - 1, k)) + 1)
    } else {
        Seq::empty()
    }
}

/// `s` after evicting records from the back until `needed` more bytes fit.
pub open spec fn trim_back(s: Seq<u8>, needed: nat) -> Seq<u8>
    decreases s.len(),
{
    if s.len() == 0 || s.len() + needed <= MAX_LOG_SIZE {
        s
    } else {
        proof {
            lemma_drop_last_line_shorter(s);
        }
        trim_back(drop_last_line(s), needed)
    }
}

proof fn lemma_last_newline_unique(s: Seq<u8>, bound: int, k1: int, k2: int)
    requires
        is_last_newline_before(s, bound, k1),
        is_last_newline_before(s, bound, k2),
    ensures
        k1 == k2,
{
}

/// Dropping the last record of a non-empty sequence shortens it.
pub proof fn lemma_drop_last_line_shorter(s: Seq<u8>)
    requires
        s.len() > 0,
    ensures
        drop_last_line(s).len() < s.len(),
{
}

/// Trimming leaves room for `needed` bytes, unless it emptied the store.
pub proof fn lemma_trim_back(s: Seq<u8>, needed: nat)
    ensures
        trim_back(s, needed).len() == 0 || trim_back(s, needed).len() + needed <= MAX_LOG_SIZE,
        trim_back(s, needed).len() <= s.len(),
    decreases s.len(),
{
    if !(s.len() == 0 || s.len() + needed <= MAX_LOG_SIZE) {
        lemma_drop_last_line_shorter(s);
        lemma_trim_back(drop_last_line(s), needed);
    }
}

/// The newest-first log store.
pub struct LogStore {
    buffer: Vec<u8>,
    head: usize,
    len: usize,
}

impl View for LogStore {
    type V = Seq<u8>;

    closed spec fn view(&self) -> Seq<u8> {
        Seq::new(self.len as nat, |i: int| self.buffer@[wrap(self.head + i)])
    }
}

impl LogStore {
    /// The storage has its size and the window lies inside it.
    pub closed spec fn wf(&self) -> bool {
        &&& self.buffer@.len() == MAX_LOG_SIZE
        &&& self.head < MAX_LOG_SIZE
        &&& self.len <= MAX_LOG_SIZE
    }

    /// An empty store.
    pub fn new() -> (r: LogStore)
        ensures
            r.wf(),
            r@ == Seq::<u8>::empty(),
    {
        let mut buffer: Vec<u8> = Vec::new();
        let mut i: usize = 0;
        while i < MAX_LOG_SIZE
            invariant
                i <= MAX_LOG_SIZE,
                buffer@.len() == i,
            decreases MAX_LOG_SIZE - i,
        {
            buffer.push(0);
            i = i + 1;
        }
        let r = LogStore { buffer, head: 0, len: 0 };
        assert(r@ =~= Seq::<u8>::empty());
        r
    }

    /// The number of bytes held.
    pub fn len(&self) -> (r: usize)
        ensures
            r == self@.len(),
    {
        self.len
    }

    /// Evict the oldest record, at the back; a store without a complete
    /// earlier record is emptied.
    pub fn pop_oldest_line(&mut self)
        requires
            old(self).wf(),
        ensures
            final(self).wf(),
            final(self)@ == if old(self)@.len() == 0 {
                old(self)@
            } else {
                drop_last_line(old(self)@)
            },
    {
        if self.len == 0 {
            return;
        }
        let ghost s = self@;
        if self.len > 1 {
            let mut offset = self.len - 2;
            loop
                invariant
                    self@ == s,
                    s == old(self)@,
                    self.len == s.len(),
                    self.len > 1,
                    offset < self.len - 1,
                    self.buffer@.len() == MAX_LOG_SIZE,
                    self.head < MAX_LOG_SIZE,
                    self.len <= MAX_LOG_SIZE,
                    self.wf(),
                    forall|j: int| offset < j < s.len() - 1 ==> s[j] != NEWLINE,
                ensures
                    self@ == s,
                    self.len == s.len(),
                    self.head < MAX_LOG_SIZE,
                    forall|j: int| 0 <= j < s.len() - 1 ==> s[j] != NEWLINE,
                decreases offset,
            {
                let idx = (self.head + offset) % MAX_LOG_SIZE;
                proof {
                    lemma_mod_wrap(self.head + offset);
                }
                if self.buffer[idx] == NEWLINE {
                    proof {
                        assert(s[offset as int] == NEWLINE);
                        assert(is_last_newline_before(s, s.len() - 1, offset as int));
                        let k = choose|k: int| #[trigger] is_last_newline_before(s, s.len() - 1, k);
                        lemma_last_newline_unique(s, s.len() - 1, k, offset as int);
                        assert(drop_last_line(s) == s.take(offset + 1));
                    }
                    self.len = offset + 1;
                    assert(self@ =~= s.take(offset + 1));
                    return;
                }
                if offset == 0 {
                    assert(s[0] != NEWLINE);
                    break;
                }
                offset = offset - 1;
            }
        }
        proof {
            assert(forall|j: int| 0 <= j < s.len() - 1 ==> s[j] != NEWLINE);
            assert(!exists|k: int| #[trigger] is_last_newline_before(s, s.len() - 1, k));
        }
        self.head = 0;
        self.len = 0;
        assert(self@ =~= Seq::<u8>::empty());
    }

    /// Evict records from the back until `needed` more bytes fit; empty the
    /// store when `needed` exceeds its capacity.
    pub fn ensure_capacity(&mut self, needed: usize)
        requires
            old(self).wf(),
        ensures
            final(self).wf(),
            final(self)@ == if needed > MAX_LOG_SIZE {
                Seq::<u8>::empty()
            } else {
                trim_back(old(self)@, needed as nat)
            },
    {
        if needed > MAX_LOG_SIZE {
            self.head = 0;
            self.len = 0;
            assert(self@ =~= Seq::<u8>::empty());
            return;
        }
        while self.len + needed > MAX_LOG_SIZE && self.len > 0
            invariant
                needed <= MAX_LOG_SIZE,
                self.wf(),
                self.len == self@.len(),
                trim_back(self@, needed as nat) == trim_back(old(self)@, needed as nat),
            decreases self.len,
        {
            proof {
                lemma_drop_last_line_shorter(self@);
            }
            self.pop_oldest_line();
        }
    }

    /// Put `bytes` in front of the store. Nothing happens for an empty
    /// record or one longer than the capacity; otherwise the store must have
    /// room for it.
    pub fn push_bytes_front(&mut self, bytes: &[u8])
        requires
            old(self).wf(),
            bytes@.len() == 0 || bytes@.len() > MAX_LOG_SIZE || old(self)@.len() + bytes@.len()
                <= MAX_LOG_SIZE,
        ensures
            final(self)@ == if bytes@.len() == 0 || bytes@.len() > MAX_LOG_SIZE {
                old(self)@
            } else {
                bytes@ + old(self)@
            },
            final(self).wf(),
    {
        let n = bytes.len();
        if n > MAX_LOG_SIZE || n == 0 {
            return;
        }
        let ghost s = self@;
        let head = (self.head + MAX_LOG_SIZE - n) % MAX_LOG_SIZE;
        proof {
            lemma_mod_wrap(self.head + MAX_LOG_SIZE - n);
        }
        let ghost old_buffer = self.buffer@;
        let ghost old_head = self.head as int;
        let mut i: usize = 0;
        while i < n
            invariant
                i <= n,
                0 < n <= MAX_LOG_SIZE,
                n == bytes@.len(),
                s.len() + n <= MAX_LOG_SIZE,
                s.len() <= MAX_LOG_SIZE,
                self.buffer@.len() == MAX_LOG_SIZE,
                head < MAX_LOG_SIZE,
                old_head < MAX_LOG_SIZE,
                head == wrap(old_head + MAX_LOG_SIZE - n),
                old_buffer.len() == MAX_LOG_SIZE,
                forall|k: int| 0 <= k < s.len() ==> s[k] == old_buffer[wrap(old_head + k)],
                forall|k: int| 0 <= k < i ==> self.buffer@[wrap(head + k)] == bytes@[k],
                forall|p: int|
                    0 <= p < MAX_LOG_SIZE && distance(head as int, p) >= i ==> #[trigger] self.buffer@[p]
                        == old_buffer[p],
                self.len == s.len(),
                self.head == old_head,
            decreases n - i,
        {
            let idx = (head + i) % MAX_LOG_SIZE;
            proof {
                lemma_mod_wrap(head + i);
            }
            self.buffer.set(idx, bytes[i]);
            i = i + 1;
        }
        self.head = head;
        self.len = self.len + n;
        assert(self@ =~= bytes@ + s);
    }

    /// Store one record in front, evicting the oldest records it needs room
    /// for. A record longer than the capacity empties the store and is not
    /// kept; an empty one changes nothing.
    pub fn push_line(&mut self, bytes: &[u8])
        requires
            old(self).wf(),
        ensures
            final(self).wf(),
            final(self)@ == if bytes@.len() > MAX_LOG_SIZE {
                Seq::<u8>::empty()
            } else if bytes@.len() == 0 {
                old(self)@
            } else {
                bytes@ + trim_back(old(self)@, bytes@.len())
            },
    {
        let ghost s = self@;
        self.ensure_capacity(bytes.len());
        proof {
            lemma_trim_back(s, bytes@.len());
            if bytes@.len() == 0 {
                assert(self.len <= MAX_LOG_SIZE);
            }
        }
        self.push_bytes_front(bytes);
    }

    /// The records, newest first, as text; empty when they are not valid
    /// UTF-8. The storage is first laid out from its start when the records
    /// wrap around its end.
    pub fn as_str(&mut self) -> (r: &str)
        requires
            old(self).wf(),
        ensures
            final(self).wf(),
            final(self)@ == old(self)@,
            vstd::utf8::valid_utf8(old(self)@) ==> r.spec_bytes() == old(self)@,
            !vstd::utf8::valid_utf8(old(self)@) ==> r.spec_bytes().len() == 0,
    {
        if self.len == 0 {
            proof {
                reveal_strlit("");
                assert(self@ =~= Seq::<u8>::empty());
            }
            return "";
        }
        let ghost s = self@;
        if self.head + self.len > MAX_LOG_SIZE {
            let mut rotated: Vec<u8> = Vec::new();
            let mut i: usize = 0;
            while i < MAX_LOG_SIZE
                invariant
                    i <= MAX_LOG_SIZE,
                    self.wf(),
                    self@ == s,
                    rotated@.len() == i,
                    forall|k: int| 0 <= k < i ==> rotated@[k] == self.buffer@[wrap(self.head + k)],
                decreases MAX_LOG_SIZE - i,
            {
                let idx = (self.head + i) % MAX_LOG_SIZE;
                proof {
                    lemma_mod_wrap(self.head + i);
                }
                rotated.push(self.buffer[idx]);
                i = i + 1;
            }
            self.buffer = rotated;
            self.head = 0;
            assert(self@ =~= s);
        }
        let end = self.head + self.len;
        let text = vstd::slice::slice_subrange(self.buffer.as_slice(), self.head, end);
        assert(text@ =~= s);
        match utf8_str(text) {
            Some(t) => t,
            None => {
                proof {
                    reveal_strlit("");
                }
                ""
            },
        }
    }
}

} // verus!
