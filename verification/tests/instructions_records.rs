use deltapatch::instructions::add_instruction;
use deltapatch::instructions::copy_instruction;
use deltapatch::instructions::reference_instruction;
use deltapatch::instructions::{AddInstruction, CopyInstruction, ReferenceInstruction};

#[test]
fn add_new() {
    let value = "Test".as_bytes();
    let add = AddInstruction::new(value, 4);
    assert_eq!(add.length(), &4);
    assert_eq!(add.value(), value);
}

#[test]
fn copy_new() {
    let add = CopyInstruction::new(5, 4);
    assert_eq!(add.index(), &5);
    assert_eq!(add.length(), &4);
}

#[test]
fn reference_new() {
    let add = ReferenceInstruction::new(5);
    assert_eq!(add.index(), &5);
}

#[test]
fn add_instruction_new() {
    let value = "Test".as_bytes();
    let add = add_instruction::AddInstruction::new(value, 4);
    assert_eq!(add.length(), &4);
    assert_eq!(add.value(), value);
}

#[test]
fn copy_instruction_new() {
    let add = copy_instruction::CopyInstruction::new(5, 4);
    assert_eq!(add.index(), &5);
    assert_eq!(add.length(), &4);
}

#[test]
fn reference_instruction_new() {
    let add = reference_instruction::ReferenceInstruction::new(5);
    assert_eq!(add.index(), &5);
}

#[test]
fn add_record_keeps_the_declared_length() {
    let add = AddInstruction::new(b"abc", 9);
    assert_eq!(add.length(), &9);
    assert_eq!(add.value(), b"abc");
}

#[test]
fn encoder_state_is_built_from_slices() {
    let source = vec![1u8, 2, 3];
    let target = vec![4u8];
    let _encoder = deltapatch::encode::Encode::new(&source, &target);
    assert_eq!(source, vec![1, 2, 3]);
    assert_eq!(target, vec![4]);
}
