use deltapatch::commands::add_command::AddCommand;
use deltapatch::commands::command_util::{Command, ToBytes, REFERENCE_COPY_COMMANDS};
use deltapatch::commands::copy_command::CopyCommand;
use deltapatch::commands::reference_command::ReferenceCommand;
use deltapatch::commands::remove_command::RemoveCommand;
use deltapatch::delta_patch::{ApplyPatch, ApplyPatchError, Patch};

#[test]
fn delta_patch_encode() {
    let source_bytes = b"AAABBBCCCDDDEEE";
    let target_bytes = b"AAAFFFCCCFFFCCCFFF";

    if REFERENCE_COPY_COMMANDS {
        let expected_commands: Vec<Command> = vec![
            CopyCommand::new(3).into(),
            RemoveCommand::new(b"BBB".to_vec()).unwrap().into(),
            AddCommand::new(b"FFF".to_vec()).unwrap().into(),
            ReferenceCommand::new(0).into(),
            RemoveCommand::new(b"DDDEEE".to_vec()).unwrap().into(),
            AddCommand::new(b"FFFCCC".to_vec()).unwrap().into(),
            ReferenceCommand::new(2).into(),
        ];
        assert_eq!(
            &expected_commands,
            Patch::encode(source_bytes, target_bytes).commands()
        );
    } else {
        let expected_commands: Vec<Command> = vec![
            CopyCommand::new(3).into(),
            RemoveCommand::new(b"BBB".to_vec()).unwrap().into(),
            AddCommand::new(b"FFF".to_vec()).unwrap().into(),
            CopyCommand::new(3).into(),
            RemoveCommand::new(b"DDDEEE".to_vec()).unwrap().into(),
            AddCommand::new(b"FFFCCC".to_vec()).unwrap().into(),
            ReferenceCommand::new(2).into(),
        ];
        assert_eq!(
            &expected_commands,
            Patch::encode(source_bytes, target_bytes).commands()
        );
    }
}

#[test]
fn patch_encode_with_copies_as_references() {
    let expected_commands: Vec<Command> = vec![
        CopyCommand::new(3).into(),
        RemoveCommand::new(b"BBB".to_vec()).unwrap().into(),
        AddCommand::new(b"FFF".to_vec()).unwrap().into(),
        ReferenceCommand::new(0).into(),
        RemoveCommand::new(b"DDDEEE".to_vec()).unwrap().into(),
        AddCommand::new(b"FFFCCC".to_vec()).unwrap().into(),
        ReferenceCommand::new(2).into(),
    ];
    let patch = Patch::encode_with(b"AAABBBCCCDDDEEE", b"AAAFFFCCCFFFCCCFFF", true);
    assert_eq!(&expected_commands, patch.commands());
    assert_eq!(
        b"AAABBBCCCDDDEEE".to_vec().to_target(&patch),
        Ok(b"AAAFFFCCCFFFCCCFFF".to_vec())
    );
    assert_eq!(
        b"AAAFFFCCCFFFCCCFFF".to_vec().to_source(&patch),
        Ok(b"AAABBBCCCDDDEEE".to_vec())
    );
}

#[test]
fn patch_to_bytes_frames_every_command() {
    let patch = Patch::encode(b"AAABBB", b"AAACCCD");
    assert_eq!(
        patch.to_bytes(),
        vec![b'#', 3, b'-', 3, b'B', b'B', b'B', b'+', 3, b'C', b'C', b'C', b'+', 1, b'D']
    );
    assert_eq!(Patch::encode(b"", b"").to_bytes(), Vec::<u8>::new());
}

#[test]
fn patch_round_trip() {
    let source = b"the quick brown fox jumps over the lazy dog".to_vec();
    let target = b"the quick red fox leaps over the lazy dogs!".to_vec();
    let patch = Patch::encode(&source, &target);
    assert_eq!(source.to_target(&patch), Ok(target.clone()));
    assert_eq!(target.to_source(&patch), Ok(source.clone()));
}

fn noisy(len: usize, seed: u32) -> Vec<u8> {
    let mut state = seed;
    let mut bytes = Vec::with_capacity(len);
    for _ in 0..len {
        state = state.wrapping_mul(1664525).wrapping_add(1013904223);
        bytes.push((state >> 24) as u8 & 3);
    }
    bytes
}

#[test]
fn patch_round_trip_over_many_blocks() {
    let source = noisy(3000, 1);
    let target = noisy(3400, 2);
    let patch = Patch::encode(&source, &target);
    assert!(patch.commands().len() > 600);
    assert!(patch
        .commands()
        .iter()
        .any(|command| command.reference().is_some()));
    for (place, command) in patch.commands().iter().enumerate() {
        if let Some(reference) = command.reference() {
            let at = place - place % 255 + reference.index() as usize;
            assert!(at < place);
            assert!(patch.commands()[at].reference().is_none());
        }
    }
    assert_eq!(source.to_target(&patch), Ok(target.clone()));
    assert_eq!(target.to_source(&patch), Ok(source.clone()));
    let patch = Patch::encode_with(&source, &target, true);
    assert_eq!(source.to_target(&patch), Ok(target.clone()));
    assert_eq!(target.to_source(&patch), Ok(source));
}

#[test]
fn patch_apply_errors() {
    let patch = Patch::encode(b"AAABBB", b"AAACCC");
    assert_eq!(
        b"AAAxBB".to_vec().to_target(&patch),
        Err(ApplyPatchError::SourceMismatch)
    );
    assert_eq!(
        b"AA".to_vec().to_target(&patch),
        Err(ApplyPatchError::SourceMismatch)
    );
    assert_eq!(
        b"AAACCx".to_vec().to_source(&patch),
        Err(ApplyPatchError::TargetMismatch)
    );
    assert_eq!(
        b"".to_vec().to_source(&patch),
        Err(ApplyPatchError::TargetMismatch)
    );
}
