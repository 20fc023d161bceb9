use vstd::prelude::*;

use smallvec::SmallVec;

verus! {

/// The largest length or capacity: smallvec refuses ("capacity overflow")
/// an allocation above `isize::MAX` bytes.
pub const MAX_LEN: usize = isize::MAX as usize;

/// The smallest power of two that is at least `n`, searching upward from
/// `p`.
pub open spec fn pow2_at_least(n: nat, p: nat) -> nat
    decreases if p < n { n - p } else { 0 },
{
    if p >= n || p == 0 {
        p
    } else {
        pow2_at_least(n, 2 * p)
    }
}

/// `usize::next_power_of_two` on `n`.
pub open spec fn next_pow2(n: nat) -> nat {
    pow2_at_least(n, 1)
}

/// The search never lands below `n`.
pub proof fn lemma_pow2_at_least(n: nat, p: nat)
    requires
        p >= 1,
    ensures
        pow2_at_least(n, p) >= n,
        pow2_at_least(n, p) >= p,
    decreases if p < n { n - p } else { 0 },
{
    if p < n {
        lemma_pow2_at_least(n, 2 * p);
    }
}

/// A capacity after `reserve` is never below the old one, and leaves room
/// for what was asked.
pub proof fn lemma_reserved_capacity(cap: nat, len: nat, additional: nat)
    requires
        len <= cap,
    ensures
        reserved_capacity(cap, len, additional) >= cap,
        reserved_capacity(cap, len, additional) >= len + additional,
{
    lemma_pow2_at_least(len + additional, 1);
}

/// smallvec's capacity after `reserve(additional)` on a vector of `len`
/// items and capacity `cap`: unchanged while there is room, otherwise the
/// next power of two that fits `len + additional`.
pub open spec fn reserved_capacity(cap: nat, len: nat, additional: nat) -> nat {
    if additional <= cap - len {
        cap
    } else {
        next_pow2(len + additional)
    }
}

/// `k` copies of `b`.
pub open spec fn repeat(b: u8, k: nat) -> Seq<u8> {
    Seq::new(k, |i: int| b)
}

/// A `SmallVec<[u8; N]>`, opaque to proofs.
#[verifier::external_body]
struct RawStore<const N: usize> {
    v: SmallVec<[u8; N]>,
}

/// A `SmallVec<[u8; N]>` with its model: `items` is what it holds, `cap` its
/// capacity. Values are made and changed only by the methods below, each of
/// which keeps the model in step with the vector.
pub struct Store<const N: usize> {
    raw: RawStore<N>,
    held: Ghost<Seq<u8>>,
    allocated: Ghost<nat>,
}

impl<const N: usize> Store<N> {
    /// The bytes the vector holds.
    pub closed spec fn items(&self) -> Seq<u8> {
        self.held@
    }

    /// The vector's capacity.
    pub closed spec fn cap(&self) -> nat {
        self.allocated@
    }

    /// Relies on SmallVec::new: empty, with the inline capacity `N`.
    #[verifier::external_body]
    pub fn new() -> (s: Self)
        ensures
            s.items() == Seq::<u8>::empty(),
            s.cap() == N,
    {
        Store { raw: RawStore { v: SmallVec::new() }, held: Ghost(Seq::empty()), allocated: Ghost(N as nat) }
    }

    /// Relies on SmallVec::capacity.
    #[verifier::external_body]
    pub fn capacity(&self) -> (r: usize)
        ensures
            r == self.cap(),
    {
        self.raw.v.capacity()
    }

    /// Relies on SmallVec::spilled: the capacity is above the inline one.
    #[verifier::external_body]
    pub fn spilled(&self) -> (r: bool)
        ensures
            r == (self.cap() > N),
    {
        self.raw.v.spilled()
    }

    /// Relies on SmallVec::reserve, which grows to
    /// `next_power_of_two(len + additional)` when the room is short; it
    /// panics where that is above `isize::MAX`.
    #[verifier::external_body]
    pub fn reserve(&mut self, additional: usize)
        requires
            old(self).items().len() <= old(self).cap(),
            old(self).items().len() + additional <= MAX_LEN,
            reserved_capacity(old(self).cap(), old(self).items().len(), additional as nat) <= MAX_LEN,
        ensures
            final(self).items() == old(self).items(),
            final(self).cap() == reserved_capacity(
                old(self).cap(),
                old(self).items().len(),
                additional as nat,
            ),
    {
        self.raw.v.reserve(additional)
    }

    /// Relies on SmallVec::resize: truncates, or reserves the missing count
    /// and appends copies of `value`.
    #[verifier::external_body]
    pub fn resize(&mut self, new_len: usize, value: u8)
        requires
            old(self).items().len() <= old(self).cap(),
            new_len <= MAX_LEN,
            new_len > old(self).items().len() ==> reserved_capacity(
                old(self).cap(),
                old(self).items().len(),
                (new_len - old(self).items().len()) as nat,
            ) <= MAX_LEN,
        ensures
            new_len <= old(self).items().len() ==> final(self).items() == old(self).items().subrange(
                0,
                new_len as int,
            ),
            new_len <= old(self).items().len() ==> final(self).cap() == old(self).cap(),
            new_len > old(self).items().len() ==> final(self).items() == old(self).items() + repeat(
                value,
                (new_len - old(self).items().len()) as nat,
            ),
            new_len > old(self).items().len() ==> final(self).cap() == reserved_capacity(
                old(self).cap(),
                old(self).items().len(),
                (new_len - old(self).items().len()) as nat,
            ),
    {
        self.raw.v.resize(new_len, value)
    }

    /// Relies on SmallVec::extend_from_slice: reserves `src.len()`, then
    /// appends `src`.
    #[verifier::external_body]
    pub fn extend_from_slice(&mut self, src: &[u8])
        requires
            old(self).items().len() <= old(self).cap(),
            old(self).items().len() + src@.len() <= MAX_LEN,
            reserved_capacity(old(self).cap(), old(self).items().len(), src@.len()) <= MAX_LEN,
        ensures
            final(self).items() == old(self).items() + src@,
            final(self).cap() == reserved_capacity(
                old(self).cap(),
                old(self).items().len(),
                src@.len(),
            ),
    {
        self.raw.v.extend_from_slice(src)
    }

    /// Relies on SmallVec::as_slice: all items, in order.
    #[verifier::external_body]
    pub fn as_slice(&self) -> (r: &[u8])
        ensures
            r@ == self.items(),
    {
        self.raw.v.as_slice()
    }

    /// Relies on SmallVec::as_mut_slice: all items, writable in place; the
    /// capacity stays.
    #[verifier::external_body]
    pub fn as_mut_slice(&mut self) -> (r: &mut [u8])
        ensures
            r@ == old(self).items(),
            final(self).items() == final(r)@,
            final(self).cap() == old(self).cap(),
    {
        self.raw.v.as_mut_slice()
    }
}

} // verus!
