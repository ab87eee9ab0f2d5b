//! A read position in a byte buffer.

use vstd::prelude::*;

verus! {

/// A byte buffer with the position up to which it has been read.
pub struct Cursor<'a> {
    bytes: &'a [u8],
    position: usize,
}

impl<'a> Cursor<'a> {
    #[verifier::type_invariant]
    spec fn in_bounds(self) -> bool {
        self.position <= self.bytes@.len()
    }

    /// The whole buffer.
    pub closed spec fn data(self) -> Seq<u8> {
        self.bytes@
    }

    /// The number of bytes already read.
    pub closed spec fn pos(self) -> int {
        self.position as int
    }

    /// A cursor at the start of `bytes`.
    pub fn new(bytes: &'a [u8]) -> (c: Cursor<'a>)
        ensures
            c.data() == bytes@,
            c.pos() == 0,
    {
        Cursor { bytes, position: 0 }
    }

    /// The number of bytes already read.
    pub fn position(&self) -> (p: usize)
        ensures
            p == self.pos(),
            p <= self.data().len(),
    {
        proof {
            use_type_invariant(self);
        }
        self.position
    }

    /// The buffer that the cursor reads.
    pub fn get_ref(&self) -> (b: &'a [u8])
        ensures
            b@ == self.data(),
    {
        self.bytes
    }

    /// Moves to `position` where that lies in the buffer, and says whether it did.
    pub fn set_position(&mut self, position: usize) -> (moved: bool)
        ensures
            final(self).data() == old(self).data(),
            moved == (position <= old(self).data().len()),
            final(self).pos() == if moved { position as int } else { old(self).pos() },
    {
        if position <= self.bytes.len() {
            self.position = position;
            true
        } else {
            false
        }
    }

    /// The number of bytes not yet read.
    pub fn remaining(&self) -> (n: usize)
        ensures
            n == self.data().len() - self.pos(),
    {
        proof {
            use_type_invariant(self);
        }
        self.bytes.len() - self.position
    }
}

} // verus!
