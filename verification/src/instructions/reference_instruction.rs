//! A reference record: the index of another record.

use vstd::prelude::*;

verus! {

/// The index of the record to replay.
pub struct ReferenceInstruction {
    index: u16,
}

impl View for ReferenceInstruction {
    type V = u16;

    closed spec fn view(&self) -> u16 {
        self.index
    }
}

impl ReferenceInstruction {
    /// A record of a reference to the record at `index`.
    pub fn new(index: u16) -> (record: Self)
        ensures
            record@ == index,
    {
        Self { index }
    }

    /// The index of the record to replay.
    pub fn index(&self) -> (index: &u16)
        ensures
            *index == self@,
    {
        &self.index
    }
}

} // verus!
