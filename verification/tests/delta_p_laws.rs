use deltapatch::delta_p::{DecodeError, DeltaPatch};
use deltapatch::delta_patch::ApplyPatchError;
use deltapatch::instructions::add::Add;
use deltapatch::instructions::instruction::{
    ByteChunk, ChunkLength, Instruction, PushByte, ToBytes,
};
use deltapatch::instructions::reference::Reference;
use deltapatch::instructions::remove::Remove;

fn add(bytes: &[u8]) -> Instruction {
    let mut add = Add::default();
    add.push_slice(bytes).unwrap();
    Instruction::Add(add)
}

fn remove(bytes: &[u8]) -> Instruction {
    let mut remove = Remove::default();
    remove.push_slice(bytes).unwrap();
    Instruction::Remove(remove)
}

fn copy(length: u8) -> Instruction {
    Instruction::Copy(deltapatch::instructions::copy::Copy::new(length))
}

fn reference(index: u16) -> Instruction {
    Instruction::Reference(Reference::new(index))
}

fn noisy(len: usize, seed: u32, spread: u8) -> Vec<u8> {
    let mut state = seed;
    let mut bytes = Vec::with_capacity(len);
    for _ in 0..len {
        state = state.wrapping_mul(1664525).wrapping_add(1013904223);
        bytes.push((state >> 24) as u8 % spread);
    }
    bytes
}

fn patch_of(instructions: &[Instruction]) -> DeltaPatch {
    let mut bytes = Vec::new();
    for instruction in instructions {
        bytes.extend(instruction.to_bytes());
    }
    DeltaPatch::decode(&bytes).unwrap()
}

#[test]
fn encode_scenario_with_back_reference() {
    let delta = DeltaPatch::encode(b"AAABBBAAABBB", b"AAAXXXAAADDDFFF");
    let expected = vec![
        copy(3),
        remove(b"BBB"),
        add(b"XXX"),
        copy(3),
        reference(1),
        add(b"DDD"),
        add(b"FFF"),
    ];
    assert_eq!(delta.instructions(), &expected);
    assert_eq!(
        delta.to_bytes(),
        b"C\x03-\x03BBB+\x03XXXC\x03&\x00\x01+\x03DDD+\x03FFF".to_vec()
    );
}

#[test]
fn encode_of_nothing_is_empty() {
    let delta = DeltaPatch::encode(b"", b"");
    assert!(delta.instructions().is_empty());
    assert_eq!(delta.to_bytes(), Vec::<u8>::new());
    assert_eq!(delta.apply_forward(b""), Ok(Vec::new()));
    assert_eq!(delta.apply_reverse(b""), Ok(Vec::new()));
    let decoded = DeltaPatch::decode(&Vec::new()).unwrap();
    assert!(decoded.instructions().is_empty());
}

#[test]
fn decode_of_truncated_payload_fails() {
    let bytes = vec![b'+', 5, b'A', b'A'];
    assert_eq!(
        DeltaPatch::decode(&bytes).unwrap_err(),
        DecodeError::MissingPayload
    );
}

#[test]
fn decode_errors() {
    let cases: Vec<(Vec<u8>, DecodeError)> = vec![
        (vec![b'C', 3, b'+'], DecodeError::MissingLength),
        (vec![b'C', 3, b'C'], DecodeError::MissingLength),
        (vec![b'C', 3, b'-', 2, b'x'], DecodeError::MissingPayload),
        (vec![b'C', 3, b'&', 0], DecodeError::MissingReferenceIndex),
        (vec![b'C', 3, b'?'], DecodeError::UnknownTag),
        (vec![b'C', 3, b'+', 0, 0], DecodeError::UnknownTag),
    ];
    for (bytes, error) in cases {
        assert_eq!(DeltaPatch::decode(&bytes).unwrap_err(), error);
    }
}

#[test]
fn round_trip_small() {
    let pairs: Vec<(&[u8], &[u8])> = vec![
        (b"", b"abc"),
        (b"abc", b""),
        (b"abc", b"abc"),
        (b"abc", b"abd"),
        (b"abcdef", b"xbcdey"),
        (b"AAABBBAAABBB", b"AAAXXXAAADDDFFF"),
        (b"AAABBBCCCDDDEEE", b"AAAFFFCCCFFFCCCFFF"),
        (b"short", b"a much longer target than the source"),
        (b"a much longer source than the target", b"short"),
    ];
    for (source, target) in pairs {
        for dedup_copies in [false, true] {
            let delta = DeltaPatch::encode_with(source, target, dedup_copies);
            assert_eq!(delta.apply_forward(source), Ok(target.to_vec()));
            assert_eq!(delta.apply_reverse(target), Ok(source.to_vec()));
        }
    }
}

#[test]
fn round_trip_large() {
    for (source_len, target_len, spread) in [
        (700, 700, 2),
        (1000, 300, 3),
        (300, 1000, 3),
        (5000, 5200, 4),
        (600, 600, 255),
    ] {
        let source = noisy(source_len, 7, spread);
        let target = noisy(target_len, 11, spread);
        for dedup_copies in [false, true] {
            let delta = DeltaPatch::encode_with(&source, &target, dedup_copies);
            assert_eq!(delta.apply_forward(&source), Ok(target.clone()));
            assert_eq!(delta.apply_reverse(&target), Ok(source.clone()));
        }
    }
}

#[test]
fn serialization_round_trip() {
    let source = noisy(4000, 3, 3);
    let target = noisy(4100, 5, 3);
    for dedup_copies in [false, true] {
        let delta = DeltaPatch::encode_with(&source, &target, dedup_copies);
        let decoded = DeltaPatch::decode(&delta.to_bytes()).unwrap();
        assert_eq!(decoded.instructions(), delta.instructions());
        assert_eq!(decoded.apply_forward(&source), Ok(target.clone()));
    }
    let list = vec![add(&[9; 255]), remove(b""), copy(0), copy(255), reference(65535)];
    assert_eq!(patch_of(&list).instructions(), &list);
}

#[test]
fn encode_same_is_copies() {
    assert_eq!(DeltaPatch::encode(b"x", b"x").instructions(), &vec![copy(1)]);
    let bytes = noisy(255, 1, 9);
    assert_eq!(
        DeltaPatch::encode(&bytes, &bytes).instructions(),
        &vec![copy(255)]
    );
    let bytes = noisy(256, 1, 9);
    assert_eq!(
        DeltaPatch::encode(&bytes, &bytes).instructions(),
        &vec![copy(255), copy(1)]
    );
    let bytes = noisy(510, 1, 9);
    assert_eq!(
        DeltaPatch::encode(&bytes, &bytes).instructions(),
        &vec![copy(255), copy(255)]
    );
    let bytes = noisy(600, 1, 9);
    assert_eq!(
        DeltaPatch::encode(&bytes, &bytes).instructions(),
        &vec![copy(255), copy(255), copy(90)]
    );
    assert_eq!(
        DeltaPatch::encode_with(&bytes, &bytes, true).instructions(),
        &vec![copy(255), reference(0), copy(90)]
    );
}

#[test]
fn long_runs_are_cut_at_255() {
    let source = vec![0u8; 600];
    let target = vec![1u8; 600];
    let delta = DeltaPatch::encode(&source, &target);
    assert_eq!(
        delta.instructions(),
        &vec![
            remove(&[0; 255]),
            add(&[1; 255]),
            reference(0),
            reference(1),
            remove(&[0; 90]),
            add(&[1; 90]),
        ]
    );
    let source = vec![0u8; 255];
    let target = vec![1u8; 255];
    let delta = DeltaPatch::encode(&source, &target);
    assert_eq!(
        delta.instructions(),
        &vec![remove(&[0; 255]), add(&[1; 255]), remove(b""), add(b"")]
    );
    let delta = DeltaPatch::encode(&vec![2u8; 700], b"");
    assert_eq!(
        delta.instructions(),
        &vec![remove(&[2; 255]), reference(0), remove(&[2; 190])]
    );
    let delta = DeltaPatch::encode(b"", &vec![2u8; 510]);
    assert_eq!(delta.instructions(), &vec![add(&[2; 255]), reference(0)]);
}

#[test]
fn no_instruction_is_longer_than_255() {
    let source = noisy(3000, 21, 2);
    let mut target = noisy(3000, 21, 2);
    for byte in target.iter_mut().skip(500).take(1500) {
        *byte = 9;
    }
    let delta = DeltaPatch::encode(&source, &target);
    for instruction in delta.instructions() {
        match instruction {
            Instruction::Add(add) => assert!(add.bytes().len() <= 255),
            Instruction::Remove(remove) => assert!(remove.bytes().len() <= 255),
            Instruction::Copy(copy) => assert!(copy.length() as usize <= 255),
            Instruction::Reference(_) => {}
        }
    }
    assert!(delta
        .instructions()
        .iter()
        .any(|instruction| matches!(instruction, Instruction::Add(add) if add.length() == 255)));
    assert_eq!(delta.apply_forward(&source), Ok(target));
}

#[test]
fn references_name_earlier_plain_instructions() {
    let source = noisy(6000, 2, 2);
    let target = noisy(6000, 4, 2);
    for dedup_copies in [false, true] {
        let delta = DeltaPatch::encode_with(&source, &target, dedup_copies);
        let list = delta.instructions();
        let mut seen = 0;
        for (place, instruction) in list.iter().enumerate() {
            if let Some(reference) = instruction.reference() {
                seen += 1;
                let at = reference.index() as usize;
                assert!(at < place);
                assert!(list[at].reference().is_none());
            }
        }
        assert!(seen > 0);
    }
}

#[test]
fn apply_forward_errors() {
    let delta = DeltaPatch::encode(b"AAABBB", b"AAACCC");
    assert_eq!(
        delta.apply_forward(b"AAABxB"),
        Err(ApplyPatchError::SourceMismatch)
    );
    assert_eq!(
        delta.apply_forward(b"AAAB"),
        Err(ApplyPatchError::SourceMismatch)
    );
    assert_eq!(delta.apply_forward(b"AA"), Err(ApplyPatchError::SourceMismatch));
    assert_eq!(delta.apply_forward(b"xyzBBB"), Ok(b"xyzCCC".to_vec()));
    assert_eq!(delta.apply_forward(b"AAABBBtail"), Ok(b"AAACCC".to_vec()));
}

#[test]
fn apply_reverse_errors() {
    let delta = DeltaPatch::encode(b"AAABBB", b"AAACCC");
    assert_eq!(
        delta.apply_reverse(b"AAACxC"),
        Err(ApplyPatchError::TargetMismatch)
    );
    assert_eq!(
        delta.apply_reverse(b"AAAC"),
        Err(ApplyPatchError::TargetMismatch)
    );
    assert_eq!(delta.apply_reverse(b""), Err(ApplyPatchError::TargetMismatch));
    assert_eq!(delta.apply_reverse(b"xyzCCC"), Ok(b"xyzBBB".to_vec()));
}

#[test]
fn dangling_references_are_refused() {
    for list in [
        vec![reference(0)],
        vec![copy(0), reference(1)],
        vec![copy(0), reference(2)],
        vec![copy(0), reference(0), reference(1)],
        vec![reference(65535)],
    ] {
        let patch = patch_of(&list);
        assert_eq!(
            patch.apply_forward(b"abc"),
            Err(ApplyPatchError::DanglingReference)
        );
        assert_eq!(
            patch.apply_reverse(b"abc"),
            Err(ApplyPatchError::DanglingReference)
        );
    }
    let patch = patch_of(&[copy(9), reference(5)]);
    assert_eq!(
        patch.apply_forward(b"abc"),
        Err(ApplyPatchError::SourceMismatch)
    );
}

#[test]
fn a_reference_replays_at_the_current_cursor() {
    let patch = patch_of(&[copy(2), add(b"-"), reference(0), reference(1), reference(0)]);
    assert_eq!(patch.apply_forward(b"abcdef"), Ok(b"ab-cd-ef".to_vec()));
    assert_eq!(patch.apply_reverse(b"ab-cd-ef"), Ok(b"abcdef".to_vec()));
    let patch = patch_of(&[remove(b"ab"), reference(0), copy(1)]);
    assert_eq!(patch.apply_forward(b"ababc"), Ok(b"c".to_vec()));
    assert_eq!(patch.apply_reverse(b"c"), Ok(b"ababc".to_vec()));
    assert_eq!(
        patch.apply_forward(b"abxbc"),
        Err(ApplyPatchError::SourceMismatch)
    );
}
