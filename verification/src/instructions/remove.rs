//! The remove instruction.

use vstd::prelude::*;
use vstd::std_specs::cmp::PartialEqSpecImpl;
use crate::instructions::instruction::{ByteChunk, ChunkLength, InstructionError, PushByte, ToBytes};
use crate::model::op::{Format, Op, MAX_CHUNK};
use crate::model::wire::{frame, REMOVE_SIGN};

verus! {

/// The type of the length field of a remove frame.
pub type RemoveSize = u8;

/// Bytes of the source that the target leaves out: at most 255 of them.
#[derive(Debug)]
pub struct Remove {
    byte_chunk: Vec<u8>,
}

impl View for Remove {
    type V = Seq<u8>;

    closed spec fn view(&self) -> Seq<u8> {
        self.byte_chunk@
    }
}

impl Remove {
    #[verifier::type_invariant]
    spec fn fits_frame(&self) -> bool {
        self.byte_chunk@.len() <= MAX_CHUNK
    }

    /// An empty instruction with room reserved for `chunk_length` bytes.
    pub fn with_capacity(chunk_length: RemoveSize) -> (remove: Self)
        ensures
            remove@ == Seq::<u8>::empty(),
    {
        Self { byte_chunk: Vec::with_capacity(chunk_length as usize) }
    }
}

impl Default for Remove {
    fn default() -> (remove: Self)
        ensures
            remove@ == Seq::<u8>::empty(),
    {
        Self { byte_chunk: Vec::new() }
    }
}

impl PartialEq for Remove {
    fn eq(&self, other: &Self) -> (r: bool) {
        let r = self.byte_chunk == other.byte_chunk;
        proof {
            if r {
                assert(self.byte_chunk@ =~= other.byte_chunk@);
            }
        }
        r
    }
}

impl PartialEqSpecImpl for Remove {
    open spec fn obeys_eq_spec() -> bool {
        true
    }

    open spec fn eq_spec(&self, other: &Self) -> bool {
        self@ == other@
    }
}

impl ChunkLength for Remove {
    type Output = RemoveSize;

    open spec fn chunk_len(&self) -> nat {
        self@.len()
    }

    open spec fn measure(length: u8) -> nat {
        length as nat
    }

    fn length(&self) -> (n: RemoveSize)
        ensures
            n == self@.len(),
    {
        proof {
            use_type_invariant(self);
        }
        self.byte_chunk.len() as u8
    }
}

impl ByteChunk for Remove {
    open spec fn chunk(&self) -> Seq<u8> {
        self@
    }

    fn bytes(&self) -> (bytes: &[u8]) {
        proof {
            use_type_invariant(self);
        }
        self.byte_chunk.as_slice()
    }
}

impl PushByte for Remove {
    open spec fn taken(&self) -> nat {
        self@.len()
    }

    fn push(&mut self, byte: u8) -> (r: Result<(), InstructionError>)
        ensures
            r is Ok ==> final(self)@ == old(self)@.push(byte),
    {
        proof {
            use_type_invariant(&*self);
        }
        if self.byte_chunk.len() >= MAX_CHUNK {
            return Err(InstructionError::CapacityExceeded);
        }
        let mut chunk: Vec<u8> = Vec::new();
        core::mem::swap(&mut self.byte_chunk, &mut chunk);
        chunk.push(byte);
        core::mem::swap(&mut self.byte_chunk, &mut chunk);
        Ok(())
    }

    fn push_slice(&mut self, slice: &[u8]) -> (r: Result<(), InstructionError>)
        ensures
            r is Ok ==> final(self)@ == old(self)@ + slice@,
    {
        proof {
            use_type_invariant(&*self);
        }
        if slice.len() > MAX_CHUNK - self.byte_chunk.len() {
            return Err(InstructionError::CapacityExceeded);
        }
        let mut chunk: Vec<u8> = Vec::new();
        core::mem::swap(&mut self.byte_chunk, &mut chunk);
        chunk.extend_from_slice(slice);
        assert(chunk@ =~= old(self)@ + slice@);
        core::mem::swap(&mut self.byte_chunk, &mut chunk);
        Ok(())
    }
}

impl ToBytes for Remove {
    open spec fn wire(&self) -> Seq<u8> {
        frame(Op::Remove(self@), Format::Wide)
    }

    fn to_bytes(&self) -> (bytes: Vec<u8>) {
        proof {
            use_type_invariant(self);
        }
        let mut bytes: Vec<u8> = Vec::with_capacity(self.byte_chunk.len() + 2);
        bytes.push(REMOVE_SIGN);
        bytes.push(self.byte_chunk.len() as u8);
        bytes.extend_from_slice(self.byte_chunk.as_slice());
        assert(bytes@ =~= self.wire());
        bytes
    }
}

} // verus!
