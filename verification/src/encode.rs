//! The state of an encoder that keeps its records in a table.

use std::collections::HashMap;
use vstd::prelude::*;
use crate::instructions::instruction_enum::Instruction;

verus! {

/// A source and a target with the table of records found so far, keyed by
/// the hash of their content.
pub struct Encode {
    source: Vec<u8>,
    target: Vec<u8>,
    instruction_map: HashMap<u64, Instruction>,
}

impl Encode {
    /// The bytes to turn into the target.
    pub closed spec fn source(&self) -> Seq<u8> {
        self.source@
    }

    /// The bytes to arrive at.
    pub closed spec fn target(&self) -> Seq<u8> {
        self.target@
    }

    /// The records found so far, by hash.
    pub closed spec fn records(&self) -> Map<u64, Instruction> {
        self.instruction_map@
    }

    /// An encoder for copies of `source` and `target`, with no record yet.
    pub fn new(source: &[u8], target: &[u8]) -> (encoder: Self)
        ensures
            encoder.source() == source@,
            encoder.target() == target@,
            encoder.records() == Map::<u64, Instruction>::empty(),
    {
        Self {
            source: vstd::slice::slice_to_vec(source),
            target: vstd::slice::slice_to_vec(target),
            instruction_map: HashMap::new(),
        }
    }
}

} // verus!
