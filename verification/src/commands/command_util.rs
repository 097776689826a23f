//! The command as a closed sum, and the list operations of the compact
//! format.

use vstd::prelude::*;
use vstd::std_specs::cmp::PartialEqSpecImpl;
use vstd::std_specs::convert::FromSpecImpl;
use crate::commands::add_command::AddCommand;
use crate::commands::copy_command::CopyCommand;
use crate::commands::reference_command::{ReferenceCommand, ReferenceCommandIndex};
use crate::commands::remove_command::RemoveCommand;
pub use crate::instructions::instruction::ToBytes;
use crate::model::dedup::{first_match, referable, reference_index, stored};
use crate::model::op::{Format, Op};
use crate::model::wire::frame;

verus! {

/// Whether a repeated copy command is stored as a reference where nothing
/// else is said.
pub const REFERENCE_COPY_COMMANDS: bool = false;

/// A chunk was asked to hold more than 255 bytes.
#[derive(Debug, PartialEq, Eq, Structural, Clone, Copy)]
pub enum ChunkError {
    ChunkLengthOverFlow,
}

/// Why bytes are not the frame of a command.
#[derive(Debug, PartialEq, Eq, Structural, Clone, Copy)]
pub enum FromBytesError {
    /// The byte at the place of a sign is no sign.
    InvalidSign,
    /// The input ended where a length was expected.
    ExpectedChunkLength,
    /// The input ended inside a chunk.
    ExpectedChunk,
    /// The input ended where an index was expected.
    ExpectedIndex,
}

/// One command of a patch in the compact format.
#[derive(Debug)]
pub enum Command {
    Copy(CopyCommand),
    Add(AddCommand),
    Remove(RemoveCommand),
    Reference(ReferenceCommand),
}

impl View for Command {
    type V = Op;

    open spec fn view(&self) -> Op {
        match self {
            Command::Copy(command) => Op::Copy(command@),
            Command::Add(command) => Op::Add(command@),
            Command::Remove(command) => Op::Remove(command@),
            Command::Reference(command) => Op::Reference(command@),
        }
    }
}

/// The steps that a list of commands stands for.
pub open spec fn steps_of(list: Seq<Command>) -> Seq<Op> {
    Seq::new(list.len(), |i: int| list[i]@)
}

/// The steps of a list with one more command are the steps of the list
/// with one more step.
pub proof fn lemma_steps_of_push(list: Seq<Command>, command: Command)
    ensures
        steps_of(list.push(command)) == steps_of(list).push(command@),
{
    assert(steps_of(list.push(command)) =~= steps_of(list).push(command@));
}

impl PartialEq for Command {
    /// Two commands are equal where they are of the same kind and hold the
    /// same bytes, length or index.
    fn eq(&self, other: &Self) -> (r: bool) {
        match (self, other) {
            (Command::Copy(a), Command::Copy(b)) => a == b,
            (Command::Add(a), Command::Add(b)) => a == b,
            (Command::Remove(a), Command::Remove(b)) => a == b,
            (Command::Reference(a), Command::Reference(b)) => a == b,
            _ => false,
        }
    }
}

impl PartialEqSpecImpl for Command {
    open spec fn obeys_eq_spec() -> bool {
        true
    }

    open spec fn eq_spec(&self, other: &Self) -> bool {
        self@ == other@
    }
}

impl Command {
    /// The copy command, if this is one.
    pub fn copy(&self) -> (r: Option<&CopyCommand>)
        ensures
            match r {
                Some(command) => *self == Command::Copy(*command),
                None => !(self is Copy),
            },
    {
        match self {
            Command::Copy(copy) => Some(copy),
            _ => None,
        }
    }

    /// The add command, if this is one.
    pub fn add(&self) -> (r: Option<&AddCommand>)
        ensures
            match r {
                Some(command) => *self == Command::Add(*command),
                None => !(self is Add),
            },
    {
        match self {
            Command::Add(add) => Some(add),
            _ => None,
        }
    }

    /// The remove command, if this is one.
    pub fn remove(&self) -> (r: Option<&RemoveCommand>)
        ensures
            match r {
                Some(command) => *self == Command::Remove(*command),
                None => !(self is Remove),
            },
    {
        match self {
            Command::Remove(remove) => Some(remove),
            _ => None,
        }
    }

    /// The reference command, if this is one.
    pub fn reference(&self) -> (r: Option<&ReferenceCommand>)
        ensures
            match r {
                Some(command) => *self == Command::Reference(*command),
                None => !(self is Reference),
            },
    {
        match self {
            Command::Reference(reference) => Some(reference),
            _ => None,
        }
    }
}

impl From<CopyCommand> for Command {
    fn from(value: CopyCommand) -> (command: Self) {
        Command::Copy(value)
    }
}

impl FromSpecImpl<CopyCommand> for Command {
    open spec fn obeys_from_spec() -> bool {
        true
    }

    open spec fn from_spec(value: CopyCommand) -> Self {
        Command::Copy(value)
    }
}

impl From<AddCommand> for Command {
    fn from(value: AddCommand) -> (command: Self) {
        Command::Add(value)
    }
}

impl FromSpecImpl<AddCommand> for Command {
    open spec fn obeys_from_spec() -> bool {
        true
    }

    open spec fn from_spec(value: AddCommand) -> Self {
        Command::Add(value)
    }
}

impl From<RemoveCommand> for Command {
    fn from(value: RemoveCommand) -> (command: Self) {
        Command::Remove(value)
    }
}

impl FromSpecImpl<RemoveCommand> for Command {
    open spec fn obeys_from_spec() -> bool {
        true
    }

    open spec fn from_spec(value: RemoveCommand) -> Self {
        Command::Remove(value)
    }
}

impl From<ReferenceCommand> for Command {
    fn from(value: ReferenceCommand) -> (command: Self) {
        Command::Reference(value)
    }
}

impl FromSpecImpl<ReferenceCommand> for Command {
    open spec fn obeys_from_spec() -> bool {
        true
    }

    open spec fn from_spec(value: ReferenceCommand) -> Self {
        Command::Reference(value)
    }
}

/// Lists in which an earlier occurrence of a command can be looked up.
pub trait FindReference {
    /// The steps of the list.
    spec fn steps(&self) -> Seq<Op>;

    /// A reference to the first command equal to `command` in the last,
    /// unfinished block of 255 commands, if `command` may be stored as a
    /// reference and there is one.
    fn find_reference(&self, command: &Command) -> (r: Option<ReferenceCommand>)
        ensures
            match r {
                Some(reference) => referable(command@, REFERENCE_COPY_COMMANDS) && reference_index(
                    self.steps(),
                    command@,
                    Format::Compact,
                ) == Some(reference@),
                None => !referable(command@, REFERENCE_COPY_COMMANDS) || reference_index(
                    self.steps(),
                    command@,
                    Format::Compact,
                ) is None,
            },
    ;
}

/// Looks `command` up in the last, unfinished block of `list`, with the
/// choice on copies given by `dedup_copies`.
pub fn find_reference_in(list: &[Command], command: &Command, dedup_copies: bool) -> (r: Option<
    ReferenceCommand,
>)
    ensures
        match r {
            Some(reference) => referable(command@, dedup_copies) && reference_index(
                steps_of(list@),
                command@,
                Format::Compact,
            ) == Some(reference@),
            None => !referable(command@, dedup_copies) || reference_index(
                steps_of(list@),
                command@,
                Format::Compact,
            ) is None,
        },
{
    if matches!(command, Command::Copy(_)) && !dedup_copies {
        return None;
    }
    let ghost steps = steps_of(list@);
    let base = list.len() - list.len() % 255;
    assert(base == Format::Compact.base(list@.len() as int));
    let mut i: usize = base;
    while i < list.len()
        invariant
            base <= i <= list@.len(),
            list@.len() - base < 255,
            base == Format::Compact.base(list@.len() as int),
            referable(command@, dedup_copies),
            steps == steps_of(list@),
            first_match(steps, command@, base as int, steps.len() as int) == first_match(
                steps,
                command@,
                i as int,
                steps.len() as int,
            ),
        decreases list.len() - i,
    {
        if list[i] == *command {
            return Some(ReferenceCommand::new((i - base) as ReferenceCommandIndex));
        }
        i = i + 1;
    }
    None
}

impl FindReference for [Command] {
    open spec fn steps(&self) -> Seq<Op> {
        steps_of(self@)
    }

    fn find_reference(&self, command: &Command) -> (r: Option<ReferenceCommand>) {
        find_reference_in(self, command, REFERENCE_COPY_COMMANDS)
    }
}

/// Lists to which a command is appended in its stored form.
pub trait AppendCommand {
    /// The steps of the list.
    spec fn steps(&self) -> Seq<Op>;

    /// Appends a reference to an earlier equal command where
    /// `find_reference` gives one, and `command` itself otherwise.
    fn push_command(&mut self, command: Command)
        ensures
            final(self).steps() == old(self).steps().push(
                stored(old(self).steps(), command@, Format::Compact, REFERENCE_COPY_COMMANDS),
            ),
    ;
}

/// Appends `command` in its stored form, with the choice on copies given
/// by `dedup_copies`.
pub fn push_command_with(list: &mut Vec<Command>, command: Command, dedup_copies: bool)
    ensures
        steps_of(final(list)@) == steps_of(old(list)@).push(
            stored(steps_of(old(list)@), command@, Format::Compact, dedup_copies),
        ),
{
    let stored_as = match find_reference_in(list.as_slice(), &command, dedup_copies) {
        Some(reference) => Command::Reference(reference),
        None => command,
    };
    proof {
        lemma_steps_of_push(list@, stored_as);
    }
    list.push(stored_as);
}

impl AppendCommand for Vec<Command> {
    open spec fn steps(&self) -> Seq<Op> {
        steps_of(self@)
    }

    fn push_command(&mut self, command: Command) {
        push_command_with(self, command, REFERENCE_COPY_COMMANDS)
    }
}

impl ToBytes for Command {
    open spec fn wire(&self) -> Seq<u8> {
        frame(self@, Format::Compact)
    }

    fn to_bytes(&self) -> (bytes: Vec<u8>) {
        match self {
            Command::Copy(copy) => copy.to_bytes(),
            Command::Add(add) => add.to_bytes(),
            Command::Remove(remove) => remove.to_bytes(),
            Command::Reference(reference) => reference.to_bytes(),
        }
    }
}

} // verus!
