//! An add record: bytes with a declared length.

use vstd::prelude::*;

verus! {

/// Bytes to add, kept beside the length that was declared for them.
pub struct AddInstruction {
    value: Vec<u8>,
    length: u8,
}

impl View for AddInstruction {
    type V = (Seq<u8>, u8);

    /// The bytes and the declared length.
    closed spec fn view(&self) -> (Seq<u8>, u8) {
        (self.value@, self.length)
    }
}

impl AddInstruction {
    /// A record of a copy of `value` and of `length` as given, whether or
    /// not it is the number of bytes.
    pub fn new(value: &[u8], length: u8) -> (record: Self)
        ensures
            record@ == (value@, length),
    {
        Self { value: vstd::slice::slice_to_vec(value), length }
    }

    /// The bytes to add.
    pub fn value(&self) -> (value: &[u8])
        ensures
            value@ == self@.0,
    {
        self.value.as_slice()
    }

    /// The declared length.
    pub fn length(&self) -> (length: &u8)
        ensures
            *length == self@.1,
    {
        &self.length
    }
}

} // verus!
