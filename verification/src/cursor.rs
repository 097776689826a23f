//! A read position in a byte slice.

use vstd::prelude::*;
use vstd::slice::slice_subrange;

verus! {

/// A byte slice that is read front to back. Its view is what is still to be
/// read.
pub struct ByteCursor<'a> {
    bytes: &'a [u8],
    position: usize,
}

impl<'a> View for ByteCursor<'a> {
    type V = Seq<u8>;

    closed spec fn view(&self) -> Seq<u8> {
        self.bytes@.skip(self.position as int)
    }
}

impl<'a> ByteCursor<'a> {
    #[verifier::type_invariant]
    spec fn in_bounds(&self) -> bool {
        self.position <= self.bytes@.len()
    }

    /// A cursor at the start of `bytes`.
    pub fn new(bytes: &'a [u8]) -> (cursor: Self)
        ensures
            cursor@ == bytes@,
    {
        Self { bytes, position: 0 }
    }

    /// The number of bytes still to be read.
    pub fn remaining(&self) -> (n: usize)
        ensures
            n == self@.len(),
    {
        proof {
            use_type_invariant(self);
        }
        self.bytes.len() - self.position
    }

    /// The next byte, which stays unread.
    pub fn peek(&self) -> (byte: Option<u8>)
        ensures
            byte == if self@.len() > 0 { Some(self@[0]) } else { None },
    {
        proof {
            use_type_invariant(self);
        }
        if self.position < self.bytes.len() {
            Some(self.bytes[self.position])
        } else {
            None
        }
    }

    /// The byte `offset` places behind the next one, which stays unread.
    pub fn peek_at(&self, offset: usize) -> (byte: Option<u8>)
        ensures
            byte == if offset < self@.len() { Some(self@[offset as int]) } else { None },
    {
        proof {
            use_type_invariant(self);
        }
        if offset < self.bytes.len() - self.position {
            Some(self.bytes[self.position + offset])
        } else {
            None
        }
    }

    /// Reads the next byte.
    pub fn next(&mut self) -> (byte: Option<u8>)
        ensures
            byte == if old(self)@.len() > 0 { Some(old(self)@[0]) } else { None },
            final(self)@ == if old(self)@.len() > 0 { old(self)@.skip(1) } else { old(self)@ },
    {
        proof {
            use_type_invariant(&*self);
        }
        if self.position < self.bytes.len() {
            let byte = self.bytes[self.position];
            self.position = self.position + 1;
            assert(self.bytes@.skip(self.position as int) == old(self)@.skip(1));
            Some(byte)
        } else {
            None
        }
    }

    /// Reads the next `n` bytes, or all that are left where they are fewer.
    pub fn take(&mut self, n: usize) -> (chunk: &'a [u8])
        ensures
            chunk@ == old(self)@.take(
                if n <= old(self)@.len() {
                    n as int
                } else {
                    old(self)@.len() as int
                },
            ),
            final(self)@ == old(self)@.skip(chunk@.len() as int),
    {
        proof {
            use_type_invariant(&*self);
        }
        let left = self.bytes.len() - self.position;
        let count = if n <= left { n } else { left };
        let chunk = slice_subrange(self.bytes, self.position, self.position + count);
        self.position = self.position + count;
        assert(chunk@ == old(self)@.take(count as int));
        assert(self.bytes@.skip(self.position as int) == old(self)@.skip(count as int));
        chunk
    }
}

} // verus!
