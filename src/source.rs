use vstd::prelude::*;

verus! {

/// A readable byte sequence, consumed one contiguous chunk at a time.
pub trait ByteSource {
    /// The bytes not yet consumed.
    spec fn rest(&self) -> Seq<u8>;

    /// Number of bytes not yet consumed.
    fn remaining(&self) -> (r: usize)
        ensures
            r == self.rest().len(),
    ;

    /// Whether any byte is left.
    fn has_remaining(&self) -> (r: bool)
        ensures
            r == (self.rest().len() > 0),
    ;

    /// The next contiguous chunk: a prefix of what is left, non-empty while
    /// anything is left.
    fn chunk(&self) -> (c: &[u8])
        ensures
            c@.len() <= self.rest().len(),
            c@ == self.rest().subrange(0, c@.len() as int),
            self.rest().len() > 0 ==> c@.len() > 0,
    ;

    /// Consumes the first `n` bytes.
    fn advance(&mut self, n: usize)
        requires
            n <= old(self).rest().len(),
        ensures
            final(self).rest() == old(self).rest().subrange(n as int, old(self).rest().len() as int),
    ;
}

/// A slice reads as one chunk; advancing drops a prefix.
impl<'a> ByteSource for &'a [u8] {
    open spec fn rest(&self) -> Seq<u8> {
        (**self)@
    }

    fn remaining(&self) -> (r: usize) {
        self.len()
    }

    fn has_remaining(&self) -> (r: bool) {
        self.len() > 0
    }

    fn chunk(&self) -> (c: &[u8]) {
        *self
    }

    fn advance(&mut self, n: usize) {
        let s: &'a [u8] = *self;
        let (_, tail) = s.split_at(n);
        *self = tail;
    }
}

} // verus!
