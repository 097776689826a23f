//! The remove command.

use vstd::prelude::*;
use vstd::std_specs::cmp::PartialEqSpecImpl;
use crate::commands::commands_enum::{read_chunk, CommandBytes, CommandError, PushToCommand};
use crate::cursor::ByteCursor;
use crate::instructions::instruction::ToBytes;
use crate::model::op::{Format, Op, MAX_CHUNK};
use crate::model::wire::{frame, REMOVE_SIGN};

verus! {

/// The type of the length field of a frame.
pub type AddLength = u8;

/// Bytes of the source that the target leaves out: at most 255 of them.
#[derive(Debug)]
pub struct RemoveCommand {
    new_bytes: Vec<u8>,
}

impl View for RemoveCommand {
    type V = Seq<u8>;

    closed spec fn view(&self) -> Seq<u8> {
        self.new_bytes@
    }
}

impl RemoveCommand {
    #[verifier::type_invariant]
    spec fn fits_frame(&self) -> bool {
        self.new_bytes@.len() <= MAX_CHUNK
    }

    /// A command that holds `new_bytes`. Fails with the limit where they
    /// are more than 255.
    pub fn new(new_bytes: Vec<u8>) -> (r: Result<Self, CommandError>)
        ensures
            match r {
                Ok(command) => new_bytes@.len() <= MAX_CHUNK && command@ == new_bytes@,
                Err(e) => new_bytes@.len() > MAX_CHUNK && e == CommandError::ByteLimitReached(255),
            },
    {
        if new_bytes.len() > MAX_CHUNK {
            return Err(CommandError::ByteLimitReached(255));
        }
        Ok(Self { new_bytes })
    }

    /// The number of bytes held.
    pub fn length(&self) -> (n: AddLength)
        ensures
            n == self@.len(),
    {
        proof {
            use_type_invariant(self);
        }
        self.new_bytes.len() as AddLength
    }

    /// The bytes held.
    pub fn bytes(&self) -> (bytes: &[u8])
        ensures
            bytes@ == self@,
            bytes@.len() <= MAX_CHUNK,
    {
        proof {
            use_type_invariant(self);
        }
        self.new_bytes.as_slice()
    }
}

impl Default for RemoveCommand {
    fn default() -> (command: Self)
        ensures
            command@ == Seq::<u8>::empty(),
    {
        Self { new_bytes: Vec::new() }
    }
}

impl PartialEq for RemoveCommand {
    fn eq(&self, other: &Self) -> (r: bool) {
        let r = self.new_bytes == other.new_bytes;
        proof {
            if r {
                assert(self.new_bytes@ =~= other.new_bytes@);
            }
        }
        r
    }
}

impl PartialEqSpecImpl for RemoveCommand {
    open spec fn obeys_eq_spec() -> bool {
        true
    }

    open spec fn eq_spec(&self, other: &Self) -> bool {
        self@ == other@
    }
}

impl PushToCommand for RemoveCommand {
    open spec fn taken(&self) -> nat {
        self@.len()
    }

    fn push(&mut self, byte: u8) -> (r: Result<(), CommandError>)
        ensures
            r is Ok ==> final(self)@ == old(self)@.push(byte),
    {
        if self.new_bytes.len() >= MAX_CHUNK {
            return Err(CommandError::ByteLimitReached(255));
        }
        proof {
            use_type_invariant(&*self);
        }
        let mut held: Vec<u8> = Vec::new();
        core::mem::swap(&mut self.new_bytes, &mut held);
        held.push(byte);
        core::mem::swap(&mut self.new_bytes, &mut held);
        Ok(())
    }

    fn push_chunk(&mut self, bytes: &[u8]) -> (r: Result<(), CommandError>)
        ensures
            r is Ok ==> final(self)@ == old(self)@ + bytes@,
    {
        proof {
            use_type_invariant(&*self);
        }
        if bytes.len() > MAX_CHUNK - self.new_bytes.len() {
            return Err(CommandError::ByteLimitReached(255));
        }
        let mut held: Vec<u8> = Vec::new();
        core::mem::swap(&mut self.new_bytes, &mut held);
        held.extend_from_slice(bytes);
        assert(held@ =~= old(self)@ + bytes@);
        core::mem::swap(&mut self.new_bytes, &mut held);
        Ok(())
    }
}

impl CommandBytes for RemoveCommand {
    const COMMAND_SIGN: u8 = REMOVE_SIGN;

    open spec fn step(&self) -> Op {
        Op::Remove(self@)
    }

    open spec fn read(bytes: Seq<u8>) -> Result<(Op, int), CommandError> {
        read_chunk(bytes, REMOVE_SIGN)
    }

    /// Reads the frame of a remove command.
    ///
    /// Fails with the expected sign where the input is empty or starts with
    /// another byte, with the missing length where it ends behind the sign,
    /// and with the missing bytes where it ends before the length is met.
    fn from_bytes(bytes: &mut ByteCursor) -> (r: Result<Self, CommandError>) {
        match bytes.peek() {
            Some(sign) => {
                if sign != REMOVE_SIGN {
                    return Err(CommandError::ExpectedCommandSign(REMOVE_SIGN));
                }
            },
            None => {
                return Err(CommandError::ExpectedCommandSign(REMOVE_SIGN));
            },
        }
        let length = match bytes.peek_at(1) {
            Some(length) => length,
            None => {
                return Err(CommandError::ExpectedCommandLength);
            },
        };
        if bytes.remaining() - 2 < length as usize {
            return Err(CommandError::ExpectedChangeBytes);
        }
        bytes.next();
        bytes.next();
        let chunk = bytes.take(length as usize);
        assert(chunk@ == old(bytes)@.subrange(2, 2 + length));
        assert(bytes@ == old(bytes)@.skip(2 + length));
        Ok(Self { new_bytes: vstd::slice::slice_to_vec(chunk) })
    }

    fn as_bytes(&self) -> (bytes: Vec<u8>) {
        proof {
            use_type_invariant(self);
        }
        let mut bytes: Vec<u8> = Vec::with_capacity(self.new_bytes.len() + 2);
        bytes.push(REMOVE_SIGN);
        bytes.push(self.new_bytes.len() as AddLength);
        bytes.extend_from_slice(self.new_bytes.as_slice());
        assert(bytes@ =~= frame(Op::Remove(self@), Format::Compact));
        bytes
    }
}

impl ToBytes for RemoveCommand {
    open spec fn wire(&self) -> Seq<u8> {
        frame(Op::Remove(self@), Format::Compact)
    }

    fn to_bytes(&self) -> (bytes: Vec<u8>) {
        self.as_bytes()
    }
}

} // verus!
