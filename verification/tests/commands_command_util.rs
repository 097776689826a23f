use deltapatch::commands::add_command::AddCommand;
use deltapatch::commands::command_util::{
    find_reference_in, push_command_with, AppendCommand, Command, FindReference, ToBytes,
    REFERENCE_COPY_COMMANDS,
};
use deltapatch::commands::copy_command::CopyCommand;
use deltapatch::commands::reference_command::ReferenceCommand;
use deltapatch::commands::remove_command::RemoveCommand;

#[test]
fn push_command() {
    let mut commands: Vec<Command> = vec![];
    println!("REFERENCE_COPY_COMMANDS: {}", REFERENCE_COPY_COMMANDS);
    commands.push_command(CopyCommand::default().into());
    assert_eq!(commands, vec![CopyCommand::default().into()]);
    commands.push_command(CopyCommand::default().into());
    if REFERENCE_COPY_COMMANDS {
        assert_eq!(
            commands,
            vec![CopyCommand::default().into(), ReferenceCommand::new(0).into()]
        );
    } else {
        assert_eq!(
            commands,
            vec![CopyCommand::default().into(), CopyCommand::default().into()]
        );
    }
}

#[test]
fn find_reference() {
    let commands: Vec<Command> = vec![CopyCommand::default().into()];
    if REFERENCE_COPY_COMMANDS {
        assert!(commands
            .find_reference(&CopyCommand::default().into())
            .is_some());
        assert!(commands
            .find_reference(&CopyCommand::new(1).into())
            .is_none());
    } else {
        assert!(commands
            .find_reference(&CopyCommand::default().into())
            .is_none());
        assert!(commands
            .find_reference(&CopyCommand::new(1).into())
            .is_none());
    }
}

fn add(bytes: &[u8]) -> Command {
    AddCommand::new(bytes.to_vec()).unwrap().into()
}

fn remove(bytes: &[u8]) -> Command {
    RemoveCommand::new(bytes.to_vec()).unwrap().into()
}

#[test]
fn find_reference_gives_first_equal_command() {
    let commands: Vec<Command> = vec![add(b"x"), remove(b"x"), add(b"y"), remove(b"x")];
    assert_eq!(
        commands.find_reference(&remove(b"x")),
        Some(ReferenceCommand::new(1))
    );
    assert_eq!(
        commands.find_reference(&add(b"y")),
        Some(ReferenceCommand::new(2))
    );
    assert_eq!(commands.find_reference(&add(b"z")), None);
    assert_eq!(commands.find_reference(&remove(b"y")), None);
}

#[test]
fn find_reference_with_copies_allowed() {
    let commands: Vec<Command> = vec![CopyCommand::new(4).into(), CopyCommand::new(5).into()];
    assert_eq!(
        find_reference_in(&commands, &CopyCommand::new(5).into(), true),
        Some(ReferenceCommand::new(1))
    );
    assert_eq!(
        find_reference_in(&commands, &CopyCommand::new(5).into(), false),
        None
    );
    assert_eq!(
        find_reference_in(&commands, &CopyCommand::new(6).into(), true),
        None
    );
}

#[test]
fn find_reference_looks_at_the_last_block_only() {
    let mut commands: Vec<Command> = vec![];
    for i in 0..255u32 {
        commands.push(add(&[i as u8, 1]));
    }
    assert_eq!(commands.find_reference(&add(&[7, 1])), None);
    commands.push(add(&[9, 9]));
    commands.push(add(&[7, 1]));
    assert_eq!(
        commands.find_reference(&add(&[7, 1])),
        Some(ReferenceCommand::new(1))
    );
    assert_eq!(
        commands.find_reference(&add(&[9, 9])),
        Some(ReferenceCommand::new(0))
    );
    assert_eq!(commands.find_reference(&add(&[8, 1])), None);
}

#[test]
fn push_command_stores_a_reference_for_a_repeat() {
    let mut commands: Vec<Command> = vec![];
    commands.push_command(add(b"abc"));
    commands.push_command(remove(b"abc"));
    commands.push_command(add(b"abc"));
    assert_eq!(
        commands,
        vec![add(b"abc"), remove(b"abc"), ReferenceCommand::new(0).into()]
    );
    push_command_with(&mut commands, CopyCommand::new(2).into(), true);
    push_command_with(&mut commands, CopyCommand::new(2).into(), true);
    assert_eq!(commands[3], CopyCommand::new(2).into());
    assert_eq!(commands[4], ReferenceCommand::new(3).into());
}

#[test]
fn command_accessors_and_frames() {
    let command = add(b"hi");
    assert_eq!(command.add().unwrap().bytes(), b"hi");
    assert!(command.copy().is_none());
    assert!(command.remove().is_none());
    assert!(command.reference().is_none());
    assert_eq!(command.to_bytes(), vec![b'+', 2, b'h', b'i']);
    assert_eq!(remove(b"k").to_bytes(), vec![b'-', 1, b'k']);
    assert_eq!(remove(b"k").remove().unwrap().length(), 1);
    let copy: Command = CopyCommand::new(200).into();
    assert_eq!(copy.to_bytes(), vec![b'#', 200]);
    assert_eq!(copy.copy().unwrap().length(), 200);
    let reference: Command = ReferenceCommand::new(17).into();
    assert_eq!(reference.to_bytes(), vec![b'&', 17]);
    assert_ne!(add(b"k"), remove(b"k"));
}
