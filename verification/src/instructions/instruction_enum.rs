//! Records as they are kept in a table keyed by hash.

use vstd::prelude::*;
use crate::instructions::add_instruction::AddInstruction;
use crate::instructions::copy_instruction::CopyInstruction;
use crate::instructions::reference_instruction::ReferenceInstruction;

verus! {

/// A record with the hash of its content, where one was computed, and its
/// position in the patch.
#[allow(inconsistent_fields)]
pub enum Instruction {
    Add { instruction: AddInstruction, hash: Option<u64>, index: u16 },
    Copy { instruction: CopyInstruction, hash: Option<u64>, index: u16 },
    Reference { instruction: ReferenceInstruction, hash: Option<u64>, index: u16 },
}

} // verus!
