//! The copy command.

use vstd::prelude::*;
use vstd::std_specs::cmp::PartialEqSpecImpl;
use crate::commands::commands_enum::{read_copy, CommandBytes, CommandError, PushToCommand};
use crate::cursor::ByteCursor;
use crate::instructions::instruction::ToBytes;
use crate::model::op::{Format, Op, MAX_CHUNK};
use crate::model::wire::{frame, COMPACT_COPY_SIGN};

verus! {

/// The type of the length field of a copy frame.
pub type CopyLength = u8;

/// Asserts that the next `length` bytes of source and target are the same.
#[derive(Debug)]
pub struct CopyCommand {
    length: CopyLength,
}

impl View for CopyCommand {
    type V = nat;

    closed spec fn view(&self) -> nat {
        self.length as nat
    }
}

impl CopyCommand {
    /// A copy of `length` bytes.
    pub fn new(length: CopyLength) -> (command: Self)
        ensures
            command@ == length,
    {
        Self { length }
    }

    /// The number of bytes to copy.
    pub fn length(&self) -> (length: CopyLength)
        ensures
            length == self@,
    {
        self.length
    }
}

impl Default for CopyCommand {
    fn default() -> (command: Self)
        ensures
            command@ == 0,
    {
        Self { length: 0 }
    }
}

impl PartialEq for CopyCommand {
    fn eq(&self, other: &Self) -> (r: bool) {
        self.length == other.length
    }
}

impl PartialEqSpecImpl for CopyCommand {
    open spec fn obeys_eq_spec() -> bool {
        true
    }

    open spec fn eq_spec(&self, other: &Self) -> bool {
        self@ == other@
    }
}

impl PushToCommand for CopyCommand {
    open spec fn taken(&self) -> nat {
        self@
    }

    /// Counts one more byte, whatever it is.
    fn push(&mut self, byte: u8) -> (r: Result<(), CommandError>) {
        match self.length.checked_add(1) {
            Some(length) => {
                self.length = length;
                Ok(())
            },
            None => Err(CommandError::ByteLimitReached(255)),
        }
    }

    /// Counts as many more bytes as `bytes` has.
    fn push_chunk(&mut self, bytes: &[u8]) -> (r: Result<(), CommandError>) {
        if bytes.len() > MAX_CHUNK - self.length as usize {
            return Err(CommandError::ByteLimitReached(255));
        }
        self.length = self.length + bytes.len() as CopyLength;
        Ok(())
    }
}

impl CommandBytes for CopyCommand {
    const COMMAND_SIGN: u8 = COMPACT_COPY_SIGN;

    open spec fn step(&self) -> Op {
        Op::Copy(self@)
    }

    open spec fn read(bytes: Seq<u8>) -> Result<(Op, int), CommandError> {
        read_copy(bytes)
    }

    /// Reads the frame of a copy command.
    ///
    /// Fails with the expected sign where the input is empty or starts with
    /// another byte, and with the missing length where it ends behind the
    /// sign.
    fn from_bytes(bytes: &mut ByteCursor) -> (r: Result<Self, CommandError>) {
        match bytes.peek() {
            Some(sign) => {
                if sign != COMPACT_COPY_SIGN {
                    return Err(CommandError::ExpectedCommandSign(COMPACT_COPY_SIGN));
                }
            },
            None => {
                return Err(CommandError::ExpectedCommandSign(COMPACT_COPY_SIGN));
            },
        }
        let length = match bytes.peek_at(1) {
            Some(length) => length,
            None => {
                return Err(CommandError::ExpectedCommandLength);
            },
        };
        bytes.next();
        bytes.next();
        assert(bytes@ == old(bytes)@.skip(2));
        Ok(Self::new(length))
    }

    fn as_bytes(&self) -> (bytes: Vec<u8>) {
        let mut bytes: Vec<u8> = Vec::with_capacity(2);
        bytes.push(COMPACT_COPY_SIGN);
        bytes.push(self.length);
        assert(bytes@ =~= frame(Op::Copy(self@), Format::Compact));
        bytes
    }
}

impl ToBytes for CopyCommand {
    open spec fn wire(&self) -> Seq<u8> {
        frame(Op::Copy(self@), Format::Compact)
    }

    fn to_bytes(&self) -> (bytes: Vec<u8>) {
        self.as_bytes()
    }
}

} // verus!
