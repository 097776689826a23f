//! The reference instruction.

use vstd::prelude::*;
use vstd::std_specs::cmp::PartialEqSpecImpl;
use crate::instructions::instruction::ToBytes;
use crate::model::op::{Format, Op};
use crate::model::wire::{frame, REFERENCE_SIGN};

verus! {

/// The type of the index field of a reference frame.
pub type ReferenceSize = u16;

/// Replays the instruction at position `index` of the same list.
#[derive(Debug)]
pub struct Reference {
    index: ReferenceSize,
}

impl View for Reference {
    type V = nat;

    closed spec fn view(&self) -> nat {
        self.index as nat
    }
}

impl Reference {
    /// A reference to the instruction at position `index`.
    pub fn new(index: ReferenceSize) -> (reference: Self)
        ensures
            reference@ == index,
    {
        Self { index }
    }

    /// The position that the reference names.
    pub fn index(&self) -> (index: ReferenceSize)
        ensures
            index == self@,
    {
        self.index
    }
}

impl Default for Reference {
    fn default() -> (reference: Self)
        ensures
            reference@ == 0,
    {
        Self { index: 0 }
    }
}

impl PartialEq for Reference {
    fn eq(&self, other: &Self) -> (r: bool) {
        self.index == other.index
    }
}

impl PartialEqSpecImpl for Reference {
    open spec fn obeys_eq_spec() -> bool {
        true
    }

    open spec fn eq_spec(&self, other: &Self) -> bool {
        self@ == other@
    }
}

impl ToBytes for Reference {
    open spec fn wire(&self) -> Seq<u8> {
        frame(Op::Reference(self@), Format::Wide)
    }

    fn to_bytes(&self) -> (bytes: Vec<u8>) {
        let mut bytes: Vec<u8> = Vec::with_capacity(3);
        bytes.push(REFERENCE_SIGN);
        bytes.push((self.index / 256) as u8);
        bytes.push((self.index % 256) as u8);
        assert(bytes@ =~= self.wire());
        bytes
    }
}

} // verus!
