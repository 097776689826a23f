//! A copy record: a position and a length.

use vstd::prelude::*;

verus! {

/// A stretch to copy, named by where it starts and how long it is.
pub struct CopyInstruction {
    index: u32,
    length: u8,
}

impl View for CopyInstruction {
    type V = (u32, u8);

    /// The start and the length.
    closed spec fn view(&self) -> (u32, u8) {
        (self.index, self.length)
    }
}

impl CopyInstruction {
    /// A record of the stretch of `length` bytes that starts at `index`.
    pub fn new(index: u32, length: u8) -> (record: Self)
        ensures
            record@ == (index, length),
    {
        Self { index, length }
    }

    /// Where the stretch starts.
    pub fn index(&self) -> (index: &u32)
        ensures
            *index == self@.0,
    {
        &self.index
    }

    /// How long the stretch is.
    pub fn length(&self) -> (length: &u8)
        ensures
            *length == self@.1,
    {
        &self.length
    }
}

} // verus!
