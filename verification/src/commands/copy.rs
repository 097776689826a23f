//! A copy length with checked growth.

use vstd::prelude::*;
use vstd::std_specs::cmp::PartialEqSpecImpl;
use crate::commands::command_util::{ChunkError, FromBytesError};
use crate::cursor::ByteCursor;
use crate::instructions::instruction::ToBytes;
use crate::model::op::{Format, Op, MAX_CHUNK};
use crate::model::wire::{frame, COMPACT_COPY_SIGN};

verus! {

/// Asserts that the next `chunk_length` bytes of source and target are the
/// same.
#[derive(Debug)]
pub struct CopyCommand {
    chunk_length: u8,
}

impl View for CopyCommand {
    type V = nat;

    closed spec fn view(&self) -> nat {
        self.chunk_length as nat
    }
}

impl CopyCommand {
    /// A copy of `chunk_length` bytes.
    pub fn new(chunk_length: u8) -> (command: Self)
        ensures
            command@ == chunk_length,
    {
        Self { chunk_length }
    }

    /// The number of bytes to copy.
    pub fn chunk_length(&self) -> (n: u8)
        ensures
            n == self@,
    {
        self.chunk_length
    }

    /// Counts one more byte. Fails, and changes nothing, at 255.
    pub fn increment(&mut self) -> (r: Result<(), ChunkError>)
        ensures
            r is Ok <==> old(self)@ < MAX_CHUNK,
            r is Ok ==> final(self)@ == old(self)@ + 1,
            r is Err ==> *final(self) == *old(self),
    {
        if self.chunk_length == u8::MAX {
            return Err(ChunkError::ChunkLengthOverFlow);
        }
        self.chunk_length += 1;
        Ok(())
    }

    /// Counts `amount` more bytes. Fails, and changes nothing, where that
    /// would make more than 255.
    pub fn increment_by(&mut self, amount: u8) -> (r: Result<(), ChunkError>)
        ensures
            r is Ok <==> old(self)@ + amount <= MAX_CHUNK,
            r is Ok ==> final(self)@ == old(self)@ + amount,
            r is Err ==> *final(self) == *old(self),
    {
        match self.chunk_length.checked_add(amount) {
            Some(chunk_length) => {
                self.chunk_length = chunk_length;
                Ok(())
            },
            None => Err(ChunkError::ChunkLengthOverFlow),
        }
    }

    /// Reads the length that follows the sign of a copy frame. Fails, and
    /// reads nothing, where the input is empty.
    pub fn try_from(value: &mut ByteCursor) -> (r: Result<Self, FromBytesError>)
        ensures
            match r {
                Ok(command) => old(value)@.len() > 0 && command@ == old(value)@[0] && final(value)@
                    == old(value)@.skip(1),
                Err(e) => old(value)@.len() == 0 && e == FromBytesError::ExpectedChunkLength
                    && final(value)@ == old(value)@,
            },
    {
        match value.next() {
            Some(chunk_length) => Ok(Self::new(chunk_length)),
            None => Err(FromBytesError::ExpectedChunkLength),
        }
    }
}

impl Default for CopyCommand {
    fn default() -> (command: Self)
        ensures
            command@ == 0,
    {
        Self { chunk_length: 0 }
    }
}

impl PartialEq for CopyCommand {
    fn eq(&self, other: &Self) -> (r: bool) {
        self.chunk_length == other.chunk_length
    }
}

impl PartialEqSpecImpl for CopyCommand {
    open spec fn obeys_eq_spec() -> bool {
        true
    }

    open spec fn eq_spec(&self, other: &Self) -> bool {
        self@ == other@
    }
}

impl ToBytes for CopyCommand {
    open spec fn wire(&self) -> Seq<u8> {
        frame(Op::Copy(self@), Format::Compact)
    }

    fn to_bytes(&self) -> (bytes: Vec<u8>) {
        let mut bytes: Vec<u8> = Vec::with_capacity(2);
        bytes.push(COMPACT_COPY_SIGN);
        bytes.push(self.chunk_length);
        assert(bytes@ =~= self.wire());
        bytes
    }
}

} // verus!
