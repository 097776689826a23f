use deltapatch::delta_p::DeltaPatch;
use deltapatch::instructions::add::Add;
use deltapatch::instructions::instruction::{Instruction, PushByte, ToBytes};
use deltapatch::instructions::reference::Reference;
use deltapatch::instructions::remove::Remove;

fn expected_instructions() -> Vec<Instruction> {
    let mut remove_instruction = Remove::with_capacity(3);
    remove_instruction.push_slice(b"BBB").unwrap();
    let mut add_instruction_one = Add::with_capacity(3);
    add_instruction_one.push_slice(b"XXX").unwrap();
    let mut add_instruction_two = Add::with_capacity(3);
    add_instruction_two.push_slice(b"DDD").unwrap();
    let mut add_instruction_three = Add::with_capacity(3);
    add_instruction_three.push_slice(b"FFF").unwrap();
    vec![
        Instruction::Copy(deltapatch::instructions::copy::Copy::new(3)),
        Instruction::Remove(remove_instruction),
        Instruction::Add(add_instruction_one),
        Instruction::Copy(deltapatch::instructions::copy::Copy::new(3)),
        Instruction::Reference(Reference::new(1)),
        Instruction::Add(add_instruction_two),
        Instruction::Add(add_instruction_three),
    ]
}

#[test]
fn delta_p_encode() {
    let delta = DeltaPatch::encode(b"AAABBBAAABBB", b"AAAXXXAAADDDFFF");
    assert_eq!(delta.instructions(), &expected_instructions());
}

#[test]
fn bench() {
    let delta = DeltaPatch::encode(b"AAABBBAAABBB", b"AAAXXXAAADDDFFF");
    println!(
        "{}",
        delta
            .to_bytes()
            .iter()
            .map(|char| *char as char)
            .collect::<String>()
    );
}

#[test]
fn decode() {
    let encode = DeltaPatch::encode(b"AAABBBAAABBB", b"AAAXXXAAADDDFFF");
    let decode = DeltaPatch::decode(&encode.to_bytes()).unwrap();
    assert_eq!(decode.instructions(), &expected_instructions());
}
