//! A chunk of bytes to add, with checked growth.

use vstd::prelude::*;
use vstd::std_specs::cmp::PartialEqSpecImpl;
use crate::commands::command_util::{ChunkError, FromBytesError};
use crate::cursor::ByteCursor;
use crate::instructions::instruction::ToBytes;
use crate::model::op::{Format, Op, MAX_CHUNK};
use crate::model::wire::{frame, ADD_SIGN};

verus! {

/// Bytes to insert into the target: at most 255 of them.
#[derive(Debug)]
pub struct AddCommand {
    byte_chunk: Vec<u8>,
}

impl View for AddCommand {
    type V = Seq<u8>;

    closed spec fn view(&self) -> Seq<u8> {
        self.byte_chunk@
    }
}

impl AddCommand {
    #[verifier::type_invariant]
    spec fn fits_frame(&self) -> bool {
        self.byte_chunk@.len() <= MAX_CHUNK
    }

    /// A command that holds `byte_chunk`. Fails where it has more than 255
    /// bytes.
    pub fn new(byte_chunk: Vec<u8>) -> (r: Result<Self, ChunkError>)
        ensures
            match r {
                Ok(command) => byte_chunk@.len() <= MAX_CHUNK && command@ == byte_chunk@,
                Err(e) => byte_chunk@.len() > MAX_CHUNK,
            },
    {
        if byte_chunk.len() <= MAX_CHUNK {
            return Ok(Self { byte_chunk });
        }
        Err(ChunkError::ChunkLengthOverFlow)
    }

    /// The number of bytes held.
    pub fn chunk_length(&self) -> (n: u8)
        ensures
            n == self@.len(),
    {
        proof {
            use_type_invariant(self);
        }
        self.byte_chunk.len() as u8
    }

    /// The bytes held.
    pub fn byte_chunk(&self) -> (bytes: &[u8])
        ensures
            bytes@ == self@,
            bytes@.len() <= MAX_CHUNK,
    {
        proof {
            use_type_invariant(self);
        }
        self.byte_chunk.as_slice()
    }

    /// Appends one byte. Fails, and changes nothing, where 255 bytes are
    /// held already.
    pub fn push(&mut self, byte: u8) -> (r: Result<(), ChunkError>)
        ensures
            r is Ok <==> old(self)@.len() < MAX_CHUNK,
            r is Ok ==> final(self)@ == old(self)@.push(byte),
            r is Err ==> *final(self) == *old(self),
    {
        proof {
            use_type_invariant(&*self);
        }
        if self.byte_chunk.len() < MAX_CHUNK {
            let mut held: Vec<u8> = Vec::new();
            core::mem::swap(&mut self.byte_chunk, &mut held);
            held.push(byte);
            core::mem::swap(&mut self.byte_chunk, &mut held);
            return Ok(());
        }
        Err(ChunkError::ChunkLengthOverFlow)
    }

    /// Appends all of `byte`. Fails, and changes nothing, where that would
    /// make more than 255 bytes.
    pub fn extend_from_slice(&mut self, byte: &[u8]) -> (r: Result<(), ChunkError>)
        ensures
            r is Ok <==> old(self)@.len() + byte@.len() <= MAX_CHUNK,
            r is Ok ==> final(self)@ == old(self)@ + byte@,
            r is Err ==> *final(self) == *old(self),
    {
        proof {
            use_type_invariant(&*self);
        }
        if byte.len() <= MAX_CHUNK - self.byte_chunk.len() {
            let mut held: Vec<u8> = Vec::new();
            core::mem::swap(&mut self.byte_chunk, &mut held);
            held.extend_from_slice(byte);
            assert(held@ =~= old(self)@ + byte@);
            core::mem::swap(&mut self.byte_chunk, &mut held);
            return Ok(());
        }
        Err(ChunkError::ChunkLengthOverFlow)
    }

    /// Reads what follows the sign of an add frame: the length, then as
    /// many bytes. On an error nothing is read.
    ///
    /// Fails with the missing length where the input is empty, and with the
    /// missing chunk where it ends before the length is met.
    pub fn try_from(value: &mut ByteCursor) -> (r: Result<Self, FromBytesError>)
        ensures
            match r {
                Ok(command) => {
                    &&& old(value)@.len() >= 1 + old(value)@[0]
                    &&& command@ == old(value)@.subrange(1, 1 + old(value)@[0])
                    &&& final(value)@ == old(value)@.skip(1 + old(value)@[0])
                },
                Err(e) => {
                    &&& final(value)@ == old(value)@
                    &&& e == if old(value)@.len() == 0 {
                        FromBytesError::ExpectedChunkLength
                    } else {
                        FromBytesError::ExpectedChunk
                    }
                    &&& e is ExpectedChunk ==> old(value)@.len() < 1 + old(value)@[0]
                },
            },
    {
        let chunk_length = match value.peek() {
            Some(chunk_length) => chunk_length,
            None => {
                return Err(FromBytesError::ExpectedChunkLength);
            },
        };
        if value.remaining() - 1 < chunk_length as usize {
            return Err(FromBytesError::ExpectedChunk);
        }
        value.next();
        let chunk = value.take(chunk_length as usize);
        assert(chunk@ == old(value)@.subrange(1, 1 + chunk_length));
        assert(value@ == old(value)@.skip(1 + chunk_length));
        Ok(Self { byte_chunk: vstd::slice::slice_to_vec(chunk) })
    }
}

impl Default for AddCommand {
    fn default() -> (command: Self)
        ensures
            command@ == Seq::<u8>::empty(),
    {
        Self { byte_chunk: Vec::new() }
    }
}

impl PartialEq for AddCommand {
    fn eq(&self, other: &Self) -> (r: bool) {
        let r = self.byte_chunk == other.byte_chunk;
        proof {
            if r {
                assert(self.byte_chunk@ =~= other.byte_chunk@);
            }
        }
        r
    }
}

impl PartialEqSpecImpl for AddCommand {
    open spec fn obeys_eq_spec() -> bool {
        true
    }

    open spec fn eq_spec(&self, other: &Self) -> bool {
        self@ == other@
    }
}

impl ToBytes for AddCommand {
    open spec fn wire(&self) -> Seq<u8> {
        frame(Op::Add(self@), Format::Compact)
    }

    fn to_bytes(&self) -> (bytes: Vec<u8>) {
        let mut bytes: Vec<u8> = Vec::with_capacity(2);
        bytes.push(ADD_SIGN);
        bytes.push(self.chunk_length());
        bytes.extend_from_slice(self.byte_chunk.as_slice());
        assert(bytes@ =~= self.wire());
        bytes
    }
}

} // verus!
