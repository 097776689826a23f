//! The instruction types and their framing.

pub mod add;
pub mod add_instruction;
pub mod copy;
pub mod copy_instruction;
pub mod instruction;
pub mod instruction_enum;
pub mod reference;
pub mod reference_instruction;
pub mod remove;

pub use add_instruction::AddInstruction;
pub use copy_instruction::CopyInstruction;
pub use reference_instruction::ReferenceInstruction;
