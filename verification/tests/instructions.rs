use deltapatch::cursor::ByteCursor;
use deltapatch::delta_p::DecodeError;
use deltapatch::instructions::add::Add;
use deltapatch::instructions::instruction::{
    ByteChunk, ChunkLength, Instruction, InstructionError, PushByte, ToBytes,
};
use deltapatch::instructions::reference::Reference;
use deltapatch::instructions::remove::Remove;

fn add(bytes: &[u8]) -> Instruction {
    let mut add = Add::default();
    add.push_slice(bytes).unwrap();
    Instruction::Add(add)
}

fn remove(bytes: &[u8]) -> Instruction {
    let mut remove = Remove::default();
    remove.push_slice(bytes).unwrap();
    Instruction::Remove(remove)
}

fn copy(length: u8) -> Instruction {
    Instruction::Copy(deltapatch::instructions::copy::Copy::new(length))
}

fn reference(index: u16) -> Instruction {
    Instruction::Reference(Reference::new(index))
}

#[test]
fn push_up_to_the_limit() {
    let mut add = Add::with_capacity(255);
    for i in 0..255u32 {
        assert_eq!(add.push(i as u8), Ok(()));
    }
    assert_eq!(add.length(), 255);
    assert_eq!(add.push(0), Err(InstructionError::CapacityExceeded));
    assert_eq!(add.length(), 255);
    assert_eq!(add.bytes()[254], 254);

    let mut remove = Remove::with_capacity(0);
    assert_eq!(remove.push(5), Ok(()));
    assert_eq!(remove.push(6), Ok(()));
    assert_eq!(remove.bytes(), &[5, 6]);
    assert_eq!(remove.length(), 2);

    let mut copy = deltapatch::instructions::copy::Copy::new(254);
    assert_eq!(copy.push(b'x'), Ok(()));
    assert_eq!(copy.length(), 255);
    assert_eq!(copy.push(b'x'), Err(InstructionError::CapacityExceeded));
    assert_eq!(copy.length(), 255);
}

#[test]
fn push_slice_is_all_or_nothing() {
    let mut add = Add::default();
    assert_eq!(add.push_slice(&[1; 200]), Ok(()));
    assert_eq!(
        add.push_slice(&[2; 56]),
        Err(InstructionError::CapacityExceeded)
    );
    assert_eq!(add.bytes(), vec![1; 200]);
    assert_eq!(add.push_slice(&[2; 55]), Ok(()));
    assert_eq!(add.length(), 255);
    assert_eq!(&add.bytes()[198..202], &[1, 1, 2, 2]);

    let mut remove = Remove::default();
    assert_eq!(
        remove.push_slice(&[0; 256]),
        Err(InstructionError::CapacityExceeded)
    );
    assert_eq!(remove.length(), 0);

    let mut copy = deltapatch::instructions::copy::Copy::new(250);
    assert_eq!(
        copy.push_slice(&[0; 6]),
        Err(InstructionError::CapacityExceeded)
    );
    assert_eq!(copy.length(), 250);
    assert_eq!(copy.push_slice(&[0; 5]), Ok(()));
    assert_eq!(copy.length(), 255);
}

#[test]
fn frames_of_the_four_kinds() {
    assert_eq!(add(b"AB").to_bytes(), vec![b'+', 2, b'A', b'B']);
    assert_eq!(remove(b"C").to_bytes(), vec![b'-', 1, b'C']);
    assert_eq!(add(b"").to_bytes(), vec![b'+', 0]);
    assert_eq!(copy(200).to_bytes(), vec![b'C', 200]);
    assert_eq!(reference(0x1234).to_bytes(), vec![b'&', 0x12, 0x34]);
    assert_eq!(reference(7).to_bytes(), vec![b'&', 0, 7]);
    assert_eq!(reference(0xffff).to_bytes(), vec![b'&', 0xff, 0xff]);
    assert_eq!(Reference::new(258).to_bytes(), vec![b'&', 1, 2]);
    assert_eq!(Reference::default().index(), 0);
}

#[test]
fn equality_is_by_kind_and_content() {
    assert_eq!(add(b"x"), add(b"x"));
    assert_ne!(add(b"x"), add(b"y"));
    assert_ne!(add(b"x"), add(b"xx"));
    assert_ne!(add(b"x"), remove(b"x"));
    assert_eq!(remove(b"x"), remove(b"x"));
    assert_eq!(copy(3), copy(3));
    assert_ne!(copy(3), copy(4));
    assert_eq!(reference(3), reference(3));
    assert_ne!(reference(3), reference(4));
    assert_ne!(reference(3), copy(3));
}

#[test]
fn accessors_tell_the_kind() {
    let instruction = add(b"x");
    assert!(instruction.add().is_some());
    assert!(instruction.remove().is_none());
    assert!(instruction.copy().is_none());
    assert!(instruction.reference().is_none());
    assert_eq!(remove(b"yz").remove().unwrap().bytes(), b"yz");
    assert_eq!(copy(9).copy().unwrap().length(), 9);
    assert_eq!(reference(9).reference().unwrap().index(), 9);
}

#[test]
fn mutable_accessors_reach_the_variant() {
    let mut instruction = add(b"x");
    assert!(instruction.remove_mut().is_none());
    assert!(instruction.copy_mut().is_none());
    assert!(instruction.reference_mut().is_none());
    instruction.add_mut().unwrap().push(b'y').unwrap();
    assert_eq!(instruction, add(b"xy"));

    let mut instruction = remove(b"");
    assert!(instruction.add_mut().is_none());
    instruction.remove_mut().unwrap().push_slice(b"ab").unwrap();
    assert_eq!(instruction, remove(b"ab"));

    let mut instruction = copy(1);
    instruction.copy_mut().unwrap().push(0).unwrap();
    assert_eq!(instruction, copy(2));

    let mut instruction = reference(1);
    *instruction.reference_mut().unwrap() = Reference::new(5);
    assert_eq!(instruction, reference(5));
}

#[test]
fn try_into_reference_names_the_first_equal_instruction() {
    let list = vec![copy(3), remove(b"BBB"), add(b"BBB"), remove(b"BBB")];
    assert_eq!(remove(b"BBB").try_into_reference(&list), reference(1));
    assert_eq!(add(b"BBB").try_into_reference(&list), reference(2));
    assert_eq!(copy(3).try_into_reference(&list), reference(0));
    assert_eq!(add(b"BB").try_into_reference(&list), add(b"BB"));
    assert_eq!(copy(4).try_into_reference(&list), copy(4));
    assert_eq!(add(b"").try_into_reference(&Vec::new()), add(b""));
    assert_eq!(remove(b"BBB").find_in(&list), Some(1));
    assert_eq!(remove(b"BB").find_in(&list), None);
}

#[test]
fn try_into_reference_gives_up_beyond_the_index_range() {
    let mut list = Vec::new();
    for _ in 0..65536u32 {
        list.push(copy(1));
    }
    list.push(add(b"far"));
    assert_eq!(add(b"far").try_into_reference(&list), add(b"far"));
    list[65535] = add(b"near");
    assert_eq!(add(b"near").try_into_reference(&list), reference(65535));
}

#[test]
fn decode_one_reads_each_kind() {
    let bytes = [
        b'+', 2, b'h', b'i', b'-', 1, b'x', b'C', 77, b'&', 1, 2, b'+', 0,
    ];
    let mut cursor = ByteCursor::new(&bytes);
    assert_eq!(Instruction::decode_one(&mut cursor).unwrap(), add(b"hi"));
    assert_eq!(cursor.remaining(), 10);
    assert_eq!(Instruction::decode_one(&mut cursor).unwrap(), remove(b"x"));
    assert_eq!(Instruction::decode_one(&mut cursor).unwrap(), copy(77));
    assert_eq!(
        Instruction::decode_one(&mut cursor).unwrap(),
        reference(258)
    );
    assert_eq!(Instruction::decode_one(&mut cursor).unwrap(), add(b""));
    assert_eq!(cursor.remaining(), 0);
    assert_eq!(
        Instruction::decode_one(&mut cursor).unwrap_err(),
        DecodeError::MissingTag
    );
}

#[test]
fn decode_one_errors_read_nothing() {
    let cases: Vec<(Vec<u8>, DecodeError)> = vec![
        (vec![], DecodeError::MissingTag),
        (vec![b'+'], DecodeError::MissingLength),
        (vec![b'-'], DecodeError::MissingLength),
        (vec![b'C'], DecodeError::MissingLength),
        (vec![b'+', 5, b'A', b'A'], DecodeError::MissingPayload),
        (vec![b'-', 1], DecodeError::MissingPayload),
        (vec![b'&'], DecodeError::MissingReferenceIndex),
        (vec![b'&', 1], DecodeError::MissingReferenceIndex),
        (vec![b'#', 1], DecodeError::UnknownTag),
        (vec![0, 1, 2], DecodeError::UnknownTag),
    ];
    for (bytes, error) in cases {
        let mut cursor = ByteCursor::new(&bytes);
        assert_eq!(Instruction::decode_one(&mut cursor).unwrap_err(), error);
        assert_eq!(cursor.remaining(), bytes.len());
    }
}
