//! The reference command.

use vstd::prelude::*;
use vstd::std_specs::cmp::PartialEqSpecImpl;
use crate::commands::command_util::FromBytesError;
use crate::cursor::ByteCursor;
use crate::instructions::instruction::ToBytes;
use crate::model::op::{Format, Op};
use crate::model::wire::{frame, REFERENCE_SIGN};

verus! {

/// The type of the index field of a reference frame.
pub type ReferenceCommandIndex = u8;

/// Replays the command at place `index` of the block of 255 commands that
/// holds this one.
#[derive(Debug)]
pub struct ReferenceCommand {
    index: ReferenceCommandIndex,
}

impl View for ReferenceCommand {
    type V = nat;

    closed spec fn view(&self) -> nat {
        self.index as nat
    }
}

impl ReferenceCommand {
    /// A reference to the command at place `index` of the block.
    pub fn new(index: ReferenceCommandIndex) -> (command: Self)
        ensures
            command@ == index,
    {
        Self { index }
    }

    /// The place in the block that the reference names.
    pub fn index(&self) -> (index: ReferenceCommandIndex)
        ensures
            index == self@,
    {
        self.index
    }

    /// Reads the index that follows the sign of a reference command. Fails,
    /// and reads nothing, where the input is empty.
    pub fn try_from(value: &mut ByteCursor) -> (r: Result<Self, FromBytesError>)
        ensures
            match r {
                Ok(command) => old(value)@.len() > 0 && command@ == old(value)@[0] && final(value)@
                    == old(value)@.skip(1),
                Err(e) => old(value)@.len() == 0 && e == FromBytesError::ExpectedIndex
                    && final(value)@ == old(value)@,
            },
    {
        match value.next() {
            Some(index) => Ok(ReferenceCommand::new(index)),
            None => Err(FromBytesError::ExpectedIndex),
        }
    }
}

impl PartialEq for ReferenceCommand {
    fn eq(&self, other: &Self) -> (r: bool) {
        self.index == other.index
    }
}

impl PartialEqSpecImpl for ReferenceCommand {
    open spec fn obeys_eq_spec() -> bool {
        true
    }

    open spec fn eq_spec(&self, other: &Self) -> bool {
        self@ == other@
    }
}

impl ToBytes for ReferenceCommand {
    open spec fn wire(&self) -> Seq<u8> {
        frame(Op::Reference(self@), Format::Compact)
    }

    fn to_bytes(&self) -> (bytes: Vec<u8>) {
        let mut bytes: Vec<u8> = Vec::with_capacity(2);
        bytes.push(REFERENCE_SIGN);
        bytes.push(self.index);
        assert(bytes@ =~= self.wire());
        bytes
    }
}

} // verus!
