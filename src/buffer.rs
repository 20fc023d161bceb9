use std::cmp::Ordering;

use vstd::prelude::*;

use crate::source::ByteSource;
use crate::store::{lemma_reserved_capacity, repeat, reserved_capacity, Store, MAX_LEN};

verus! {

/// What `chunk_mut` reserves when the buffer is full.
pub const CHUNK_GROWTH: usize = 64;

/// A growable byte buffer on a `SmallVec<[u8; N]>`: up to `N` bytes live
/// inline, and the first growth past that moves them to the heap for good.
///
/// The store may hold more bytes than the content: the first `len` are the
/// content, what follows (up to the capacity, zeros past what the store
/// holds) is the spare region that `chunk_mut` exposes and `advance_mut`
/// commits.
pub struct SmallBytes<const N: usize> {
    store: Store<N>,
    len: usize,
}

impl<const N: usize> View for SmallBytes<N> {
    type V = Seq<u8>;

    /// The content: the first `len` bytes of the store.
    closed spec fn view(&self) -> Seq<u8> {
        let held = self.store.items();
        held.subrange(0, if self.len <= held.len() { self.len as int } else { held.len() as int })
    }
}

impl<const N: usize> SmallBytes<N> {
    /// Number of bytes currently allocated.
    pub closed spec fn spec_capacity(&self) -> nat {
        self.store.cap()
    }

    /// The spare region `[len, capacity)`.
    pub closed spec fn spare(&self) -> Seq<u8> {
        let held = self.store.items();
        held.subrange(self.len as int, held.len() as int) + repeat(0, (self.store.cap() - held.len()) as nat)
    }

    /// How many more bytes may be written.
    pub open spec fn spec_remaining(&self) -> int {
        MAX_LEN - self@.len()
    }

    /// Whether the content has moved to the heap.
    pub open spec fn spec_spilled(&self) -> bool {
        self.spec_capacity() > N
    }

    /// Well-formedness: the content within what the store holds, that
    /// within the capacity, and the capacity between `N` and `MAX_LEN`.
    pub closed spec fn wf(&self) -> bool {
        &&& self.len <= self.store.items().len()
        &&& self.store.items().len() <= self.store.cap()
        &&& N <= self.store.cap() <= MAX_LEN
    }

    /// Facts that follow from well-formedness.
    pub proof fn lemma_wf(&self)
        requires
            self.wf(),
        ensures
            self@.len() <= self.spec_capacity(),
            N <= self.spec_capacity() <= MAX_LEN,
            self.spare().len() == self.spec_capacity() - self@.len(),
    {
    }

    /// An empty buffer with the inline capacity `N`.
    pub fn new() -> (r: Self)
        requires
            N <= MAX_LEN,
        ensures
            r.wf(),
            r@ == Seq::<u8>::empty(),
            r.spec_capacity() == N,
            !r.spec_spilled(),
    {
        let r = SmallBytes { store: Store::new(), len: 0 };
        assert(r@ =~= Seq::<u8>::empty());
        r
    }

    /// Number of content bytes.
    pub fn len(&self) -> (r: usize)
        requires
            self.wf(),
        ensures
            r == self@.len(),
    {
        self.len
    }

    /// Whether the content is empty.
    pub fn is_empty(&self) -> (r: bool)
        requires
            self.wf(),
        ensures
            r == (self@.len() == 0),
    {
        self.len == 0
    }

    /// Number of bytes allocated, inline or on the heap; never below `N`.
    pub fn capacity(&self) -> (r: usize)
        requires
            self.wf(),
        ensures
            r == self.spec_capacity(),
    {
        self.store.capacity()
    }

    /// Whether the content has moved to the heap.
    pub fn spilled(&self) -> (r: bool)
        requires
            self.wf(),
        ensures
            r == self.spec_spilled(),
    {
        self.store.spilled()
    }

    /// The content as a read-only slice of exactly `len` bytes.
    pub fn as_ref(&self) -> (r: &[u8])
        requires
            self.wf(),
        ensures
            r@ == self@,
    {
        let (head, _) = self.store.as_slice().split_at(self.len);
        head
    }

    /// Drops what the store holds past the content.
    fn trim(&mut self)
        requires
            old(self).wf(),
        ensures
            final(self).wf(),
            final(self)@ == old(self)@,
            final(self).spec_capacity() == old(self).spec_capacity(),
            final(self).store.items() == old(self)@,
            final(self).spare() == repeat(0, (old(self).spec_capacity() - old(self)@.len()) as nat),
    {
        self.store.resize(self.len, 0);
        assert(self@ =~= old(self)@);
        assert(self.spare() =~= repeat(0, (old(self).spec_capacity() - old(self)@.len()) as nat));
    }

    /// Fills the store with zeros up to the capacity, so that the whole
    /// spare region is held.
    fn fill_spare(&mut self)
        requires
            old(self).wf(),
        ensures
            final(self).wf(),
            final(self)@ == old(self)@,
            final(self).spare() == old(self).spare(),
            final(self).spec_capacity() == old(self).spec_capacity(),
            final(self).store.items().len() == final(self).spec_capacity(),
    {
        let cap = self.store.capacity();
        if cap > self.store.as_slice().len() {
            self.store.resize(cap, 0);
        }
        assert(self@ =~= old(self)@);
        assert(self.spare() =~= old(self).spare());
    }

    /// Makes room for at least `additional` more bytes past the content.
    /// When the room is short, the capacity becomes the next power of two
    /// that fits; otherwise nothing changes. Never shrinks.
    pub fn reserve(&mut self, additional: usize)
        requires
            old(self).wf(),
            old(self)@.len() + additional <= MAX_LEN,
            reserved_capacity(old(self).spec_capacity(), old(self)@.len(), additional as nat) <= MAX_LEN,
        ensures
            final(self).wf(),
            final(self)@ == old(self)@,
            final(self).spec_capacity() == reserved_capacity(
                old(self).spec_capacity(),
                old(self)@.len(),
                additional as nat,
            ),
            final(self).spec_capacity() >= old(self)@.len() + additional,
            final(self).spec_capacity() >= old(self).spec_capacity(),
            additional <= old(self).spec_capacity() - old(self)@.len() ==> final(self).spare() == old(self).spare(),
            additional > old(self).spec_capacity() - old(self)@.len() ==> final(self).spare() == repeat(
                0,
                (final(self).spec_capacity() - old(self)@.len()) as nat,
            ),
    {
        proof { lemma_reserved_capacity(self.spec_capacity(), self@.len(), additional as nat); }
        let cap = self.store.capacity();
        if additional > cap - self.len {
            self.trim();
            self.store.reserve(additional);
            assert(self@ =~= old(self)@);
            assert(self.spare() =~= repeat(0, (self.spec_capacity() - old(self)@.len()) as nat));
        }
    }

    /// Sets the length to `new_len`: a longer buffer is filled with `value`
    /// past the old content, growing as `reserve` does; a shorter one is
    /// truncated. Capacity is never released.
    pub fn resize(&mut self, new_len: usize, value: u8)
        requires
            old(self).wf(),
            new_len <= MAX_LEN,
            new_len > old(self)@.len() ==> reserved_capacity(
                old(self).spec_capacity(),
                old(self)@.len(),
                (new_len - old(self)@.len()) as nat,
            ) <= MAX_LEN,
        ensures
            final(self).wf(),
            new_len <= old(self)@.len() ==> final(self)@ == old(self)@.subrange(0, new_len as int),
            new_len > old(self)@.len() ==> final(self)@ == old(self)@ + repeat(
                value,
                (new_len - old(self)@.len()) as nat,
            ),
            new_len <= old(self)@.len() ==> final(self).spec_capacity() == old(self).spec_capacity(),
            new_len > old(self)@.len() ==> final(self).spec_capacity() == reserved_capacity(
                old(self).spec_capacity(),
                old(self)@.len(),
                (new_len - old(self)@.len()) as nat,
            ),
    {
        if new_len <= self.len {
            self.store.resize(new_len, value);
            self.len = new_len;
            assert(self@ =~= old(self)@.subrange(0, new_len as int));
        } else {
            proof { lemma_reserved_capacity(self.spec_capacity(), self@.len(), (new_len - self@.len()) as nat); }
            self.trim();
            self.store.resize(new_len, value);
            self.len = new_len;
            assert(self@ =~= old(self)@ + repeat(value, (new_len - old(self)@.len()) as nat));
        }
    }

    /// Appends `src` to the content, growing as `reserve` does.
    pub fn extend_from_slice(&mut self, src: &[u8])
        requires
            old(self).wf(),
            old(self)@.len() + src@.len() <= MAX_LEN,
            reserved_capacity(old(self).spec_capacity(), old(self)@.len(), src@.len()) <= MAX_LEN,
        ensures
            final(self).wf(),
            final(self)@ == old(self)@ + src@,
            final(self).spec_capacity() == reserved_capacity(
                old(self).spec_capacity(),
                old(self)@.len(),
                src@.len(),
            ),
    {
        proof { lemma_reserved_capacity(self.spec_capacity(), self@.len(), src@.len()); }
        self.trim();
        self.store.extend_from_slice(src);
        self.len = self.len + src.len();
        assert(self@ =~= old(self)@ + src@);
    }
    /// How many more bytes may be written: `MAX_LEN` minus the length.
    pub fn remaining_mut(&self) -> (r: usize)
        requires
            self.wf(),
        ensures
            r == self.spec_remaining(),
    {
        MAX_LEN - self.len
    }

    /// Commits the first `cnt` bytes of the spare region as content.
    pub fn advance_mut(&mut self, cnt: usize)
        requires
            old(self).wf(),
            cnt <= old(self).spec_capacity() - old(self)@.len(),
        ensures
            final(self).wf(),
            final(self)@ == old(self)@ + old(self).spare().subrange(0, cnt as int),
            final(self)@.len() == old(self)@.len() + cnt,
            final(self)@.subrange(0, old(self)@.len() as int) == old(self)@,
            final(self).spec_capacity() == old(self).spec_capacity(),
            final(self).spare() == old(self).spare().subrange(cnt as int, old(self).spare().len() as int),
    {
        if cnt > self.store.as_slice().len() - self.len {
            self.fill_spare();
        }
        let ghost mid = *self;
        self.len = self.len + cnt;
        assert(mid.spare() =~= mid.store.items().subrange(mid.len as int, mid.store.items().len() as int) + repeat(0, (mid.store.cap() - mid.store.items().len()) as nat));
        assert(self@ =~= old(self)@ + old(self).spare().subrange(0, cnt as int));
        assert(self@.subrange(0, old(self)@.len() as int) =~= old(self)@);
        assert(self.spare() =~= old(self).spare().subrange(cnt as int, old(self).spare().len() as int));
    }

    /// The spare region `[len, capacity)` for direct writing. A full buffer
    /// first reserves `CHUNK_GROWTH` more bytes, so the chunk is never empty
    /// when the buffer is full.
    pub fn chunk_mut(&mut self) -> (chunk: &mut [u8])
        requires
            old(self).wf(),
            old(self).spec_capacity() == old(self)@.len() ==> old(self)@.len() + CHUNK_GROWTH <= MAX_LEN
                && reserved_capacity(old(self).spec_capacity(), old(self)@.len(), CHUNK_GROWTH as nat) <= MAX_LEN,
        ensures
            chunk@.len() == chunk_capacity(old(self).spec_capacity(), old(self)@.len()) - old(self)@.len(),
            old(self).spec_capacity() == old(self)@.len() ==> chunk@.len() > 0,
            chunk@ == old(self).spare() + repeat(
                0,
                (chunk_capacity(old(self).spec_capacity(), old(self)@.len()) - old(self).spec_capacity()) as nat,
            ),
            final(self)@ == old(self)@,
            final(self).spec_capacity() == chunk_capacity(old(self).spec_capacity(), old(self)@.len()),
            final(chunk)@.len() == chunk@.len() ==> final(self).wf() && final(self).spare() == final(chunk)@,
    {
        if self.store.capacity() == self.len {
            self.reserve(CHUNK_GROWTH);
            assert(old(self).spare() =~= Seq::<u8>::empty());
            assert(self.spare() =~= old(self).spare() + repeat(
                0,
                (chunk_capacity(old(self).spec_capacity(), old(self)@.len()) - old(self).spec_capacity()) as nat,
            ));
        }
        self.fill_spare();
        proof { assert(self.spare() =~= self.store.items().subrange(self.len as int, self.store.items().len() as int)); }
        let len = self.len;
        let (_, tail) = self.store.as_mut_slice().split_at_mut(len);
        tail
    }

    /// Appends `src`; the same as `extend_from_slice`.
    pub fn put_slice(&mut self, src: &[u8])
        requires
            old(self).wf(),
            old(self)@.len() + src@.len() <= MAX_LEN,
            reserved_capacity(old(self).spec_capacity(), old(self)@.len(), src@.len()) <= MAX_LEN,
        ensures
            final(self).wf(),
            final(self)@ == old(self)@ + src@,
            final(self).spec_capacity() == reserved_capacity(
                old(self).spec_capacity(),
                old(self)@.len(),
                src@.len(),
            ),
    {
        self.extend_from_slice(src);
    }

    /// Appends `cnt` copies of `val`. The target length saturates at
    /// `MAX_LEN` instead of wrapping.
    pub fn put_bytes(&mut self, val: u8, cnt: usize)
        requires
            old(self).wf(),
            fill_len(old(self)@.len(), cnt as nat) > old(self)@.len() ==> reserved_capacity(
                old(self).spec_capacity(),
                old(self)@.len(),
                (fill_len(old(self)@.len(), cnt as nat) - old(self)@.len()) as nat,
            ) <= MAX_LEN,
        ensures
            final(self).wf(),
            final(self)@.len() == fill_len(old(self)@.len(), cnt as nat),
            final(self)@ == old(self)@ + repeat(val, (fill_len(old(self)@.len(), cnt as nat) - old(self)@.len()) as nat),
            final(self).spec_capacity() == reserved_capacity(
                old(self).spec_capacity(),
                old(self)@.len(),
                (fill_len(old(self)@.len(), cnt as nat) - old(self)@.len()) as nat,
            ),
    {
        let new_len = if cnt > MAX_LEN - self.len { MAX_LEN } else { self.len + cnt };
        let old_len = self.len;
        self.resize(new_len, val);
        if new_len == old_len {
            assert(self@ =~= old(self)@ + repeat(val, 0));
        }
    }

    /// Appends one byte.
    pub fn put_u8(&mut self, n: u8)
        requires
            old(self).wf(),
            old(self)@.len() < MAX_LEN,
            reserved_capacity(old(self).spec_capacity(), old(self)@.len(), 1) <= MAX_LEN,
        ensures
            final(self).wf(),
            final(self)@ == old(self)@.push(n),
            final(self).spec_capacity() == reserved_capacity(
                old(self).spec_capacity(),
                old(self)@.len(),
                1,
            ),
    {
        let bytes = [n];
        assert(bytes@ =~= seq![n]);
        self.extend_from_slice(&bytes);
    }

    /// Appends `n` in big-endian order: high byte first.
    pub fn put_u16(&mut self, n: u16)
        requires
            old(self).wf(),
            old(self)@.len() + 2 <= MAX_LEN,
            reserved_capacity(old(self).spec_capacity(), old(self)@.len(), 2) <= MAX_LEN,
        ensures
            final(self).wf(),
            final(self)@ == old(self)@ + be_u16(n),
            final(self).spec_capacity() == reserved_capacity(
                old(self).spec_capacity(),
                old(self)@.len(),
                2,
            ),
    {
        let bytes = [(n / 256) as u8, (n % 256) as u8];
        assert(bytes@ =~= be_u16(n));
        self.extend_from_slice(&bytes);
    }

    /// Appends everything `src` holds: reserves room for all of it at once,
    /// then copies it chunk by chunk.
    pub fn put<S: ByteSource>(&mut self, src: S)
        requires
            old(self).wf(),
            old(self)@.len() + src.rest().len() <= MAX_LEN,
            reserved_capacity(old(self).spec_capacity(), old(self)@.len(), src.rest().len()) <= MAX_LEN,
        ensures
            final(self).wf(),
            final(self)@ == old(self)@ + src.rest(),
            final(self).spec_capacity() == reserved_capacity(
                old(self).spec_capacity(),
                old(self)@.len(),
                src.rest().len(),
            ),
    {
        let ghost all = src.rest();
        let mut src = src;
        let total = src.remaining();
        self.reserve(total);
        while src.has_remaining()
            invariant
                self.wf(),
                self.spec_capacity() <= MAX_LEN,
                self@ + src.rest() == old(self)@ + all,
                self@.len() + src.rest().len() <= self.spec_capacity(),
                self.spec_capacity() == reserved_capacity(
                    old(self).spec_capacity(),
                    old(self)@.len(),
                    total as nat,
                ),
            decreases src.rest().len(),
        {
            let s = src.chunk();
            let l = s.len();
            let ghost before = self@;
            let ghost left = src.rest();
            proof { self.lemma_wf(); }
            self.extend_from_slice(s);
            src.advance(l);
            assert(left =~= left.subrange(0, l as int) + src.rest());
            assert(self@ + src.rest() =~= before + left);
        }
        assert(self@ + src.rest() =~= self@);
    }
}

/// Two buffers are equal when their contents are: capacity, spilling and
/// the spare region play no part.
impl<const N: usize> PartialEq for SmallBytes<N> {
    fn eq(&self, other: &SmallBytes<N>) -> (r: bool) {
        let a = self.store.as_slice();
        let b = other.store.as_slice();
        let la = if self.len <= a.len() { self.len } else { a.len() };
        let lb = if other.len <= b.len() { other.len } else { b.len() };
        if la != lb {
            assert(self@.len() != other@.len());
            return false;
        }
        let mut i: usize = 0;
        while i < la
            invariant
                a@ == self.store.items(),
                b@ == other.store.items(),
                la <= a@.len(),
                la <= b@.len(),
                la == self@.len(),
                la == other@.len(),
                0 <= i <= la,
                forall|j: int| 0 <= j < i ==> self@[j] == other@[j],
            decreases la - i,
        {
            if a[i] != b[i] {
                assert(self@[i as int] != other@[i as int]);
                return false;
            }
            i = i + 1;
        }
        assert(self@ =~= other@);
        true
    }
}

impl<const N: usize> Eq for SmallBytes<N> {}

/// The content as a byte slice, for anything that reads `AsRef<[u8]>`.
impl<const N: usize> AsRef<[u8]> for SmallBytes<N> {
    fn as_ref(&self) -> (r: &[u8])
        ensures
            r@ == self@,
    {
        let held = self.store.as_slice();
        let l = if self.len <= held.len() { self.len } else { held.len() };
        let (head, _) = held.split_at(l);
        head
    }
}

impl<const N: usize> vstd::std_specs::cmp::PartialEqSpecImpl for SmallBytes<N> {
    open spec fn obeys_eq_spec() -> bool {
        true
    }

    open spec fn eq_spec(&self, other: &SmallBytes<N>) -> bool {
        self@ == other@
    }
}

/// Byte sequences in lexicographic order, as byte slices compare.
pub open spec fn lex_cmp(a: Seq<u8>, b: Seq<u8>) -> Ordering
    decreases a.len(),
{
    if a.len() == 0 {
        if b.len() == 0 { Ordering::Equal } else { Ordering::Less }
    } else if b.len() == 0 {
        Ordering::Greater
    } else if a[0] < b[0] {
        Ordering::Less
    } else if a[0] > b[0] {
        Ordering::Greater
    } else {
        lex_cmp(a.drop_first(), b.drop_first())
    }
}

/// Buffers order by their contents, lexicographically.
impl<const N: usize> PartialOrd for SmallBytes<N> {
    fn partial_cmp(&self, other: &SmallBytes<N>) -> (r: Option<Ordering>) {
        let a = self.store.as_slice();
        let b = other.store.as_slice();
        let la = if self.len <= a.len() { self.len } else { a.len() };
        let lb = if other.len <= b.len() { other.len } else { b.len() };
        let ghost x = self@;
        let ghost y = other@;
        assert(x.skip(0) =~= x);
        assert(y.skip(0) =~= y);
        let mut i: usize = 0;
        while i < la && i < lb
            invariant
                a@ == self.store.items(),
                b@ == other.store.items(),
                la <= a@.len(),
                lb <= b@.len(),
                la == x.len(),
                lb == y.len(),
                x == self@,
                y == other@,
                0 <= i <= la,
                i <= lb,
                lex_cmp(x, y) == lex_cmp(x.skip(i as int), y.skip(i as int)),
            decreases la - i,
        {
            assert(x.skip(i as int)[0] == x[i as int]);
            assert(y.skip(i as int)[0] == y[i as int]);
            if a[i] < b[i] {
                return Some(Ordering::Less);
            }
            if a[i] > b[i] {
                return Some(Ordering::Greater);
            }
            assert(x.skip(i as int).drop_first() =~= x.skip(i + 1));
            assert(y.skip(i as int).drop_first() =~= y.skip(i + 1));
            i = i + 1;
        }
        if la < lb {
            assert(y.skip(i as int).len() > 0);
            Some(Ordering::Less)
        } else if la > lb {
            assert(x.skip(i as int).len() > 0);
            Some(Ordering::Greater)
        } else {
            Some(Ordering::Equal)
        }
    }
}

impl<const N: usize> vstd::std_specs::cmp::PartialOrdSpecImpl for SmallBytes<N> {
    open spec fn obeys_partial_cmp_spec() -> bool {
        true
    }

    open spec fn partial_cmp_spec(&self, other: &SmallBytes<N>) -> Option<Ordering> {
        Some(lex_cmp(self@, other@))
    }
}

/// The length `put_bytes` reaches: `len + cnt`, saturating at `MAX_LEN`.
pub open spec fn fill_len(len: nat, cnt: nat) -> nat {
    if len + cnt <= MAX_LEN { len + cnt } else { MAX_LEN as nat }
}

/// The two big-endian bytes of `n`.
pub open spec fn be_u16(n: u16) -> Seq<u8> {
    seq![(n / 256) as u8, (n % 256) as u8]
}

/// The capacity `chunk_mut` leaves: a full buffer reserves `CHUNK_GROWTH`.
pub open spec fn chunk_capacity(cap: nat, len: nat) -> nat {
    if cap == len { reserved_capacity(cap, len, CHUNK_GROWTH as nat) } else { cap }
}

} // verus!
