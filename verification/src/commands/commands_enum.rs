//! Commands that carry bytes or lengths, and the traits by which they grow
//! and are framed.

use vstd::prelude::*;
use vstd::std_specs::cmp::PartialEqSpecImpl;
use vstd::std_specs::convert::FromSpecImpl;
use crate::commands::add_command::AddCommand;
use crate::commands::copy_command::CopyCommand;
use crate::commands::remove_command::RemoveCommand;
use crate::cursor::ByteCursor;
use crate::model::op::{Format, Op, MAX_CHUNK};
use crate::model::wire::{frame, ADD_SIGN, COMPACT_COPY_SIGN, REMOVE_SIGN};

verus! {

/// What can go wrong when a command grows or is read from bytes.
#[derive(Debug, PartialEq, Eq, Structural, Clone, Copy)]
pub enum CommandError {
    /// The command would hold more bytes than the limit given here.
    ByteLimitReached(u32),
    /// The input does not start with the sign given here.
    ExpectedCommandSign(u8),
    /// The input ended behind the sign.
    ExpectedCommandLength,
    /// The input ended inside the bytes of the command.
    ExpectedChangeBytes,
}

/// Commands that grow byte by byte.
pub trait PushToCommand: Sized {
    /// The number of bytes taken in so far.
    spec fn taken(&self) -> nat;

    /// Takes in one byte. Fails with the limit, and changes nothing, where
    /// 255 bytes were taken in already.
    fn push(&mut self, byte: u8) -> (r: Result<(), CommandError>)
        ensures
            r is Ok <==> old(self).taken() < MAX_CHUNK,
            r is Ok ==> final(self).taken() == old(self).taken() + 1,
            r is Err ==> r == Err::<(), CommandError>(CommandError::ByteLimitReached(255))
                && *final(self) == *old(self),
    ;

    /// Takes in all of `bytes`. Fails with the limit, and changes nothing,
    /// where that would make more than 255.
    fn push_chunk(&mut self, bytes: &[u8]) -> (r: Result<(), CommandError>)
        ensures
            r is Ok <==> old(self).taken() + bytes@.len() <= MAX_CHUNK,
            r is Ok ==> final(self).taken() == old(self).taken() + bytes@.len(),
            r is Err ==> r == Err::<(), CommandError>(CommandError::ByteLimitReached(255))
                && *final(self) == *old(self),
    ;
}

/// Commands with a frame that starts with a sign of their own.
pub trait CommandBytes: Sized {
    /// The sign that starts the frame.
    const COMMAND_SIGN: u8;

    /// The step that the command stands for.
    spec fn step(&self) -> Op;

    /// The step of this kind whose frame `bytes` starts with, and the
    /// length of that frame; or what is wrong with the start of `bytes`.
    spec fn read(bytes: Seq<u8>) -> Result<(Op, int), CommandError>;

    /// The frame in the compact format.
    fn as_bytes(&self) -> (bytes: Vec<u8>)
        ensures
            bytes@ == frame(self.step(), Format::Compact),
    ;

    /// Reads the frame of a command of this kind. On an error nothing is
    /// read.
    fn from_bytes(bytes: &mut ByteCursor) -> (r: Result<Self, CommandError>)
        ensures
            match r {
                Ok(command) => Self::read(old(bytes)@) matches Ok((op, used)) && op
                    == command.step() && final(bytes)@ == old(bytes)@.skip(used),
                Err(e) => Self::read(old(bytes)@) == Err::<(Op, int), CommandError>(e)
                    && final(bytes)@ == old(bytes)@,
            },
    ;
}

/// The step whose frame `bytes` starts with, where the frame is a sign, a
/// length and as many bytes: an add for the sign `+`, a remove otherwise.
/// Fails with the expected sign where `bytes` is empty or starts with
/// another byte, with the missing length where it ends behind the sign,
/// and with the missing bytes where it ends before the length is met.
pub open spec fn read_chunk(bytes: Seq<u8>, sign: u8) -> Result<(Op, int), CommandError> {
    if bytes.len() == 0 || bytes[0] != sign {
        Err(CommandError::ExpectedCommandSign(sign))
    } else if bytes.len() < 2 {
        Err(CommandError::ExpectedCommandLength)
    } else if bytes.len() < 2 + bytes[1] {
        Err(CommandError::ExpectedChangeBytes)
    } else {
        let chunk = bytes.subrange(2, 2 + bytes[1]);
        Ok((if sign == ADD_SIGN { Op::Add(chunk) } else { Op::Remove(chunk) }, 2 + bytes[1]))
    }
}

/// The copy whose frame `bytes` starts with. Fails with the expected sign
/// where `bytes` is empty or starts with another byte, and with the
/// missing length where it ends behind the sign.
pub open spec fn read_copy(bytes: Seq<u8>) -> Result<(Op, int), CommandError> {
    if bytes.len() == 0 || bytes[0] != COMPACT_COPY_SIGN {
        Err(CommandError::ExpectedCommandSign(COMPACT_COPY_SIGN))
    } else if bytes.len() < 2 {
        Err(CommandError::ExpectedCommandLength)
    } else {
        Ok((Op::Copy(bytes[1] as nat), 2))
    }
}

/// A command that carries bytes or a length.
#[derive(Debug)]
pub enum Command {
    Copy(CopyCommand),
    Add(AddCommand),
    Remove(RemoveCommand),
}

impl View for Command {
    type V = Op;

    open spec fn view(&self) -> Op {
        match self {
            Command::Copy(command) => Op::Copy(command@),
            Command::Add(command) => Op::Add(command@),
            Command::Remove(command) => Op::Remove(command@),
        }
    }
}

impl PartialEq for Command {
    fn eq(&self, other: &Self) -> (r: bool) {
        match (self, other) {
            (Command::Copy(a), Command::Copy(b)) => a == b,
            (Command::Add(a), Command::Add(b)) => a == b,
            (Command::Remove(a), Command::Remove(b)) => a == b,
            _ => false,
        }
    }
}

impl PartialEqSpecImpl for Command {
    open spec fn obeys_eq_spec() -> bool {
        true
    }

    open spec fn eq_spec(&self, other: &Self) -> bool {
        self@ == other@
    }
}

impl Command {
    /// The copy command, if this is one.
    pub fn copy(&self) -> (r: Option<&CopyCommand>)
        ensures
            match r {
                Some(command) => *self == Command::Copy(*command),
                None => !(self is Copy),
            },
    {
        match self {
            Self::Copy(command) => Some(command),
            _ => None,
        }
    }

    /// The add command, if this is one.
    pub fn add(&self) -> (r: Option<&AddCommand>)
        ensures
            match r {
                Some(command) => *self == Command::Add(*command),
                None => !(self is Add),
            },
    {
        match self {
            Self::Add(command) => Some(command),
            _ => None,
        }
    }

    /// The remove command, if this is one.
    pub fn remove(&self) -> (r: Option<&RemoveCommand>)
        ensures
            match r {
                Some(command) => *self == Command::Remove(*command),
                None => !(self is Remove),
            },
    {
        match self {
            Self::Remove(command) => Some(command),
            _ => None,
        }
    }
}

impl From<CopyCommand> for Command {
    fn from(value: CopyCommand) -> (command: Self) {
        Command::Copy(value)
    }
}

impl FromSpecImpl<CopyCommand> for Command {
    open spec fn obeys_from_spec() -> bool {
        true
    }

    open spec fn from_spec(value: CopyCommand) -> Self {
        Command::Copy(value)
    }
}

impl From<AddCommand> for Command {
    fn from(value: AddCommand) -> (command: Self) {
        Command::Add(value)
    }
}

impl FromSpecImpl<AddCommand> for Command {
    open spec fn obeys_from_spec() -> bool {
        true
    }

    open spec fn from_spec(value: AddCommand) -> Self {
        Command::Add(value)
    }
}

impl From<RemoveCommand> for Command {
    fn from(value: RemoveCommand) -> (command: Self) {
        Command::Remove(value)
    }
}

impl FromSpecImpl<RemoveCommand> for Command {
    open spec fn obeys_from_spec() -> bool {
        true
    }

    open spec fn from_spec(value: RemoveCommand) -> Self {
        Command::Remove(value)
    }
}

/// The copy, add or remove step whose compact frame `bytes` starts with,
/// and the length of that frame; or what is wrong with the start of
/// `bytes`.
pub open spec fn parse_command(bytes: Seq<u8>) -> Result<(Op, int), CommandError> {
    if bytes.len() == 0 {
        Err(CommandError::ExpectedCommandSign(63))
    } else if bytes[0] == COMPACT_COPY_SIGN {
        read_copy(bytes)
    } else if bytes[0] == ADD_SIGN || bytes[0] == REMOVE_SIGN {
        read_chunk(bytes, bytes[0])
    } else {
        Err(CommandError::ExpectedCommandSign(63))
    }
}

impl PushToCommand for Command {
    open spec fn taken(&self) -> nat {
        match self {
            Command::Copy(command) => command.taken(),
            Command::Add(command) => command.taken(),
            Command::Remove(command) => command.taken(),
        }
    }

    fn push(&mut self, byte: u8) -> (r: Result<(), CommandError>)
        ensures
            r is Ok ==> final(self)@ == match old(self)@ {
                Op::Copy(length) => Op::Copy(length + 1),
                Op::Add(bytes) => Op::Add(bytes.push(byte)),
                Op::Remove(bytes) => Op::Remove(bytes.push(byte)),
                other => other,
            },
    {
        match self {
            Self::Copy(command) => command.push(byte),
            Self::Add(command) => command.push(byte),
            Self::Remove(command) => command.push(byte),
        }
    }

    fn push_chunk(&mut self, bytes: &[u8]) -> (r: Result<(), CommandError>)
        ensures
            r is Ok ==> final(self)@ == match old(self)@ {
                Op::Copy(length) => Op::Copy(length + bytes@.len()),
                Op::Add(held) => Op::Add(held + bytes@),
                Op::Remove(held) => Op::Remove(held + bytes@),
                other => other,
            },
    {
        match self {
            Self::Copy(command) => command.push_chunk(bytes),
            Self::Add(command) => command.push_chunk(bytes),
            Self::Remove(command) => command.push_chunk(bytes),
        }
    }
}

impl CommandBytes for Command {
    /// The sign `?`, which stands for a command of no known kind.
    const COMMAND_SIGN: u8 = 63;

    open spec fn step(&self) -> Op {
        self@
    }

    open spec fn read(bytes: Seq<u8>) -> Result<(Op, int), CommandError> {
        parse_command(bytes)
    }

    /// Reads the frame of a copy, add or remove command, told by its sign.
    ///
    /// Fails with the sign `?` where the input is empty or starts with none
    /// of the three signs, and as the command of that sign does otherwise.
    fn from_bytes(bytes: &mut ByteCursor) -> (r: Result<Self, CommandError>) {
        match bytes.peek() {
            Some(COMPACT_COPY_SIGN) => match CopyCommand::from_bytes(bytes) {
                Ok(command) => Ok(Self::Copy(command)),
                Err(e) => Err(e),
            },
            Some(ADD_SIGN) => match AddCommand::from_bytes(bytes) {
                Ok(command) => Ok(Self::Add(command)),
                Err(e) => Err(e),
            },
            Some(REMOVE_SIGN) => match RemoveCommand::from_bytes(bytes) {
                Ok(command) => Ok(Self::Remove(command)),
                Err(e) => Err(e),
            },
            _ => Err(CommandError::ExpectedCommandSign(63)),
        }
    }

    fn as_bytes(&self) -> (bytes: Vec<u8>) {
        match self {
            Self::Copy(command) => command.as_bytes(),
            Self::Add(command) => command.as_bytes(),
            Self::Remove(command) => command.as_bytes(),
        }
    }
}

} // verus!
