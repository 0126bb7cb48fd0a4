//! Fixed-capacity byte ring for newline-terminated log records.
//!
//! The backing bytes are allocated once; afterwards the ring only drops whole
//! records from the front and appends new ones at the back. Its model is the
//! sequence of bytes it holds, oldest first.

use vstd::prelude::*;

verus! {

/// The record separator.
pub const NEWLINE: u8 = 10;

/// The length of the first record of `s`: up to and including its first
/// newline, or all of `s` when it holds none.
pub open spec fn first_line_len(s: Seq<u8>) -> nat
    decreases s.len(),
{
    if s.len() == 0 {
        0
    } else if s[0] == NEWLINE {
        1
    } else {
        1 + first_line_len(s.drop_first())
    }
}

/// `s` without its first record.
pub open spec fn drop_first_line(s: Seq<u8>) -> Seq<u8> {
    s.skip(first_line_len(s) as int)
}

/// `s` after dropping whole records from the front until `n` more bytes fit
/// within `capacity`.
pub open spec fn trim_for(s: Seq<u8>, n: nat, capacity: nat) -> Seq<u8>
    decreases s.len(),
{
    if s.len() == 0 || s.len() + n <= capacity {
        s
    } else {
        proof {
            lemma_first_line_len_bounds(s);
        }
        trim_for(drop_first_line(s), n, capacity)
    }
}

/// A non-empty sequence has a first record of one byte or more, and no
/// record is longer than the sequence.
pub proof fn lemma_first_line_len_bounds(s: Seq<u8>)
    ensures
        first_line_len(s) <= s.len(),
        s.len() > 0 ==> first_line_len(s) >= 1,
    decreases s.len(),
{
    if s.len() > 0 && s[0] != NEWLINE {
        lemma_first_line_len_bounds(s.drop_first());
    }
}

/// When the first newline of `s` is at `k`, the first record is `k + 1`
/// bytes long; with no newline before `k == s.len()`, it is all of `s`.
pub proof fn lemma_first_line_len_at(s: Seq<u8>, k: int)
    requires
        0 <= k <= s.len(),
        forall|j: int| 0 <= j < k ==> s[j] != NEWLINE,
        k < s.len() ==> s[k] == NEWLINE,
    ensures
        first_line_len(s) == if k < s.len() {
            k + 1
        } else {
            s.len() as int
        },
    decreases k,
{
    if k > 0 {
        assert(s[0] != NEWLINE);
        let t = s.drop_first();
        assert forall|j: int| 0 <= j < k - 1 implies t[j] != NEWLINE by {
            assert(t[j] == s[j + 1]);
        }
        if k < s.len() {
            assert(t[k - 1] == s[k]);
        }
        lemma_first_line_len_at(t, k - 1);
    }
}

/// Trimming keeps a suffix of the contents that leaves room for `n` bytes,
/// unless it had to empty the contents.
pub proof fn lemma_trim_for(s: Seq<u8>, n: nat, capacity: nat)
    ensures
        trim_for(s, n, capacity).len() <= s.len(),
        trim_for(s, n, capacity) == s.skip(s.len() - trim_for(s, n, capacity).len()),
        trim_for(s, n, capacity).len() == 0 || trim_for(s, n, capacity).len() + n <= capacity,
    decreases s.len(),
{
    if s.len() == 0 || s.len() + n <= capacity {
        assert(s.skip(0) =~= s);
    } else {
        lemma_first_line_len_bounds(s);
        let d = drop_first_line(s);
        lemma_trim_for(d, n, capacity);
        let t = trim_for(d, n, capacity);
        assert(s.skip(s.len() - t.len()) =~= d.skip(d.len() - t.len()));
    }
}

/// The first record ends in a newline, unless it is all of the sequence.
proof fn lemma_first_line_ends(s: Seq<u8>)
    requires
        s.len() > 0,
    ensures
        first_line_len(s) == s.len() || s[first_line_len(s) - 1] == NEWLINE,
    decreases s.len(),
{
    lemma_first_line_len_bounds(s);
    if s[0] != NEWLINE && s.len() > 1 {
        lemma_first_line_ends(s.drop_first());
    }
}

/// Trimming drops whole records: what it keeps starts at the beginning,
/// at the end, or right after a newline.
proof fn lemma_trim_boundary(s: Seq<u8>, n: nat, capacity: nat) -> (k: int)
    ensures
        0 <= k <= s.len(),
        trim_for(s, n, capacity) == s.skip(k),
        k == 0 || k == s.len() || s[k - 1] == NEWLINE,
    decreases s.len(),
{
    if s.len() == 0 || s.len() + n <= capacity {
        assert(s.skip(0) =~= s);
        0
    } else {
        lemma_first_line_len_bounds(s);
        lemma_first_line_ends(s);
        let f = first_line_len(s) as int;
        let d = drop_first_line(s);
        let k2 = lemma_trim_boundary(d, n, capacity);
        assert(d.skip(k2) =~= s.skip(f + k2));
        if k2 > 0 && k2 < d.len() {
            assert(d[k2 - 1] == s[f + k2 - 1]);
        }
        f + k2
    }
}

/// Pushing a record into a ring that holds `s` within `capacity`: the ring
/// then ends with the record and holds no more than its capacity, and what
/// it kept of `s` is a suffix that starts at a record boundary, as short as
/// dropping whole records from the front allows.
pub proof fn lemma_push_line_law(s: Seq<u8>, line: Seq<u8>, capacity: nat)
    requires
        s.len() <= capacity,
        0 < line.len() <= capacity,
    ensures
        (trim_for(s, line.len(), capacity) + line).len() <= capacity,
        (trim_for(s, line.len(), capacity) + line).skip(
            trim_for(s, line.len(), capacity).len() as int,
        ) == line,
        exists|k: int|
            0 <= k <= s.len() && #[trigger] s.skip(k) == trim_for(s, line.len(), capacity) && (k == 0
                || k == s.len() || s[k - 1] == NEWLINE),
{
    lemma_trim_for(s, line.len(), capacity);
    let t = trim_for(s, line.len(), capacity);
    assert((t + line).skip(t.len() as int) =~= line);
    let k = lemma_trim_boundary(s, line.len(), capacity);
    assert(s.skip(k) == t);
}

/// `x % m` for `0 <= x < 2 * m`.
proof fn lemma_mod_once(x: int, m: int)
    requires
        0 < m,
        0 <= x < 2 * m,
    ensures
        x % m == if x < m {
            x
        } else {
            x - m
        },
{
    if x < m {
        vstd::arithmetic::div_mod::lemma_small_mod(x as nat, m as nat);
    } else {
        vstd::arithmetic::div_mod::lemma_small_mod((x - m) as nat, m as nat);
        vstd::arithmetic::div_mod::lemma_mod_sub_multiples_vanish(x, m);
    }
}

/// The storage position of logical byte `i` in a ring whose oldest byte is
/// at `start`.
pub open spec fn phys(start: int, i: int, capacity: int) -> int {
    if start + i < capacity {
        start + i
    } else {
        start + i - capacity
    }
}

/// Fixed-capacity byte ring whose backing bytes are allocated once.
pub struct PsramByteRing {
    storage: Vec<u8>,
    start: usize,
    len: usize,
}

impl View for PsramByteRing {
    type V = Seq<u8>;

    closed spec fn view(&self) -> Seq<u8> {
        Seq::new(
            self.len as nat,
            |i: int| self.storage@[phys(self.start as int, i, self.storage@.len() as int)],
        )
    }
}

impl PsramByteRing {
    #[verifier::type_invariant]
    closed spec fn well_formed(self) -> bool {
        &&& self.storage@.len() > 0
        &&& self.storage@.len() <= isize::MAX
        &&& self.start < self.storage@.len()
        &&& self.len <= self.storage@.len()
    }

    /// The number of bytes the ring can hold.
    pub closed spec fn spec_capacity(&self) -> nat {
        self.storage@.len()
    }

    /// An empty ring of `capacity` bytes; the capacity must not be zero,
    /// and no allocation is larger than `isize::MAX` bytes.
    pub fn new(capacity: usize) -> (r: PsramByteRing)
        requires
            capacity > 0,
            capacity <= isize::MAX,
        ensures
            r@ == Seq::<u8>::empty(),
            r.spec_capacity() == capacity,
    {
        let mut storage: Vec<u8> = Vec::with_capacity(capacity);
        let mut i: usize = 0;
        while i < capacity
            invariant
                i <= capacity,
                storage@.len() == i,
            decreases capacity - i,
        {
            storage.push(0);
            i = i + 1;
        }
        let r = PsramByteRing { storage, start: 0, len: 0 };
        assert(r@ =~= Seq::<u8>::empty());
        r
    }

    /// The number of bytes the ring can hold.
    pub fn capacity(&self) -> (r: usize)
        ensures
            r == self.spec_capacity(),
            r > 0,
            r <= isize::MAX,
            self@.len() <= r,
    {
        proof {
            use_type_invariant(self);
        }
        self.storage.len()
    }

    /// The number of bytes held.
    pub fn len(&self) -> (r: usize)
        ensures
            r == self@.len(),
    {
        self.len
    }

    /// Drop the oldest record: the bytes up to and including the first
    /// newline, or everything when no newline is held.
    pub fn drop_oldest_line(&mut self)
        ensures
            final(self)@ == drop_first_line(old(self)@),
            final(self).spec_capacity() == old(self).spec_capacity(),
    {
        proof {
            use_type_invariant(&*self);
        }
        if self.len == 0 {
            return;
        }
        let capacity = self.storage.len();
        let mut dropped: usize = 0;
        let mut found = false;
        while dropped < self.len && !found
            invariant
                self == old(self),
                capacity == self.storage@.len(),
                0 < capacity <= isize::MAX,
                self.start < capacity,
                self.len <= capacity,
                dropped <= self.len,
                found ==> dropped >= 1 && self@[dropped - 1] == NEWLINE,
                forall|j: int| 0 <= j < dropped - (if found { 1int } else { 0int }) ==> self@[j] != NEWLINE,
            decreases self.len - dropped,
        {
            proof {
                lemma_mod_once(self.start + dropped, capacity as int);
            }
            let index = (self.start + dropped) % capacity;
            dropped = dropped + 1;
            if self.storage[index] == NEWLINE {
                found = true;
            }
        }
        proof {
            if found {
                lemma_first_line_len_at(self@, dropped - 1);
            } else {
                lemma_first_line_len_at(self@, dropped as int);
            }
            lemma_mod_once(self.start + dropped, capacity as int);
        }
        let ghost before = self@;
        self.start = (self.start + dropped) % capacity;
        self.len = self.len - dropped;
        if self.len == 0 {
            self.start = 0;
        }
        proof {
            assert(self@ =~= before.skip(dropped as int));
        }
    }

    /// Append one record. Refused, with nothing changed, when it is empty or
    /// longer than the capacity; otherwise the oldest records are dropped
    /// until it fits.
    pub fn push_line(&mut self, bytes: &[u8]) -> (r: bool)
        ensures
            r == (bytes@.len() > 0 && bytes@.len() <= old(self).spec_capacity()),
            r ==> final(self)@ == trim_for(old(self)@, bytes@.len(), old(self).spec_capacity())
                + bytes@,
            !r ==> final(self)@ == old(self)@,
            final(self).spec_capacity() == old(self).spec_capacity(),
    {
        proof {
            use_type_invariant(&*self);
        }
        let n = bytes.len();
        if n == 0 || n > self.storage.len() {
            return false;
        }
        let capacity = self.storage.len();
        let ghost goal = trim_for(old(self)@, n as nat, capacity as nat);
        while self.len + n > capacity
            invariant
                capacity == self.storage@.len(),
                capacity <= isize::MAX,
                0 < n <= capacity,
                n == bytes@.len(),
                self.len <= capacity,
                self@.len() == self.len,
                trim_for(self@, n as nat, capacity as nat) == goal,
            decreases self.len,
        {
            proof {
                use_type_invariant(&*self);
                lemma_first_line_len_bounds(self@);
                assert(trim_for(self@, n as nat, capacity as nat) == trim_for(drop_first_line(self@), n as nat, capacity as nat));
            }
            let ghost before = self.len;
            self.drop_oldest_line();
            proof {
                use_type_invariant(&*self);
                assert(self.len < before);
            }
        }
        proof {
            use_type_invariant(&*self);
            lemma_mod_once(self.start + self.len, capacity as int);
        }
        let ghost kept = self@;
        let end = (self.start + self.len) % capacity;
        let ghost old_storage = self.storage@;
        let ghost start = self.start;
        let ghost held = self.len;
        let mut j: usize = 0;
        while j < n
            invariant
                j <= n,
                n == bytes@.len(),
                capacity <= isize::MAX,
                self.storage@.len() == capacity,
                old_storage.len() == capacity,
                self.start == start,
                self.len == held,
                end == phys(self.start as int, self.len as int, capacity as int),
                self.start < capacity,
                self.len + n <= capacity,
                forall|i: int|
                    0 <= i < held ==> #[trigger] self.storage@[phys(start as int, i, capacity as int)]
                        == old_storage[phys(start as int, i, capacity as int)],
                forall|q: int| 0 <= q < j ==> self.storage@[phys(self.start as int, self.len + q, capacity as int)] == bytes@[q],
            decreases n - j,
        {
            let position = if end + j < capacity {
                end + j
            } else {
                end + j - capacity
            };
            self.storage[position] = bytes[j];
            j = j + 1;
        }
        self.len = self.len + n;
        proof {
            assert(self@ =~= kept + bytes@);
        }
        true
    }

    /// Copy held bytes, from logical position `logical_offset` on, into the
    /// front of `out`; as many as fit or remain. Returns the number copied:
    /// zero when the offset is at or past the end or `out` is empty. The
    /// rest of `out` is left as it was.
    pub fn copy_range_to(&self, logical_offset: usize, out: &mut [u8]) -> (r: usize)
        ensures
            r == if logical_offset >= self@.len() || old(out)@.len() == 0 {
                0
            } else if self@.len() - logical_offset < old(out)@.len() {
                (self@.len() - logical_offset) as int
            } else {
                old(out)@.len() as int
            },
            r == 0 ==> final(out)@ == old(out)@,
            r > 0 ==> final(out)@ == self@.subrange(logical_offset as int, logical_offset + r)
                + old(out)@.skip(r as int),
    {
        proof {
            use_type_invariant(self);
        }
        if logical_offset >= self.len || out.len() == 0 {
            return 0;
        }
        let count = if self.len - logical_offset < out.len() {
            self.len - logical_offset
        } else {
            out.len()
        };
        let capacity = self.storage.len();
        proof {
            lemma_mod_once(self.start + logical_offset, capacity as int);
        }
        let physical_start = (self.start + logical_offset) % capacity;
        let mut j: usize = 0;
        while j < count
            invariant
                j <= count,
                count <= out@.len(),
                out@.len() == old(out)@.len(),
                logical_offset + count <= self@.len(),
                capacity == self.storage@.len(),
                capacity <= isize::MAX,
                self.len <= capacity,
                self.start < capacity,
                physical_start == phys(self.start as int, logical_offset as int, capacity as int),
                forall|q: int| 0 <= q < j ==> out@[q] == self@[logical_offset + q],
                forall|q: int| j <= q < out@.len() ==> out@[q] == old(out)@[q],
            decreases count - j,
        {
            let position = if physical_start + j < capacity {
                physical_start + j
            } else {
                physical_start + j - capacity
            };
            out[j] = self.storage[position];
            j = j + 1;
        }
        assert(out@ =~= self@.subrange(logical_offset as int, logical_offset + count) + old(out)@.skip(
            count as int,
        ));
        count
    }
}

} // verus!
