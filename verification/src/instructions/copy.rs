//! The copy instruction.

use vstd::prelude::*;
use vstd::std_specs::cmp::PartialEqSpecImpl;
use crate::instructions::instruction::{ChunkLength, InstructionError, PushByte, ToBytes};
use crate::model::op::{Format, Op, MAX_CHUNK};
use crate::model::wire::{frame, COPY_SIGN};

verus! {

/// The type of the length field of a copy frame.
pub type CopySize = u8;

/// Asserts that the next `length` bytes of source and target are the same.
#[derive(Debug)]
pub struct Copy {
    chunk_length: CopySize,
}

impl View for Copy {
    type V = nat;

    closed spec fn view(&self) -> nat {
        self.chunk_length as nat
    }
}

impl Copy {
    /// A copy of `chunk_length` bytes.
    pub fn new(chunk_length: CopySize) -> (copy: Self)
        ensures
            copy@ == chunk_length,
    {
        Self { chunk_length }
    }
}

impl Default for Copy {
    fn default() -> (copy: Self)
        ensures
            copy@ == 0,
    {
        Self { chunk_length: 0 }
    }
}

impl PartialEq for Copy {
    fn eq(&self, other: &Self) -> (r: bool) {
        self.chunk_length == other.chunk_length
    }
}

impl PartialEqSpecImpl for Copy {
    open spec fn obeys_eq_spec() -> bool {
        true
    }

    open spec fn eq_spec(&self, other: &Self) -> bool {
        self@ == other@
    }
}

impl ChunkLength for Copy {
    type Output = CopySize;

    open spec fn chunk_len(&self) -> nat {
        self@
    }

    open spec fn measure(length: u8) -> nat {
        length as nat
    }

    fn length(&self) -> (n: CopySize)
        ensures
            n == self@,
    {
        self.chunk_length
    }
}

impl PushByte for Copy {
    open spec fn taken(&self) -> nat {
        self@
    }

    /// Counts one more byte, whatever it is.
    fn push(&mut self, byte: u8) -> (r: Result<(), InstructionError>) {
        if self.chunk_length == CopySize::MAX {
            return Err(InstructionError::CapacityExceeded);
        }
        self.chunk_length = self.chunk_length + 1;
        Ok(())
    }

    /// Counts as many more bytes as `slice` has.
    fn push_slice(&mut self, slice: &[u8]) -> (r: Result<(), InstructionError>) {
        if slice.len() > MAX_CHUNK - self.chunk_length as usize {
            return Err(InstructionError::CapacityExceeded);
        }
        self.chunk_length = self.chunk_length + slice.len() as u8;
        Ok(())
    }
}

impl ToBytes for Copy {
    open spec fn wire(&self) -> Seq<u8> {
        frame(Op::Copy(self@), Format::Wide)
    }

    fn to_bytes(&self) -> (bytes: Vec<u8>) {
        let mut bytes: Vec<u8> = Vec::with_capacity(2);
        bytes.push(COPY_SIGN);
        bytes.push(self.chunk_length);
        assert(bytes@ =~= self.wire());
        bytes
    }
}

} // verus!
