use deltapatch::commands::add_command::AddCommand;
use deltapatch::commands::commands_enum::{Command, CommandBytes, CommandError, PushToCommand};
use deltapatch::commands::copy_command::CopyCommand;
use deltapatch::commands::remove_command::RemoveCommand;
use deltapatch::cursor::ByteCursor;

#[test]
fn test_push_to_command() {
    let mut copy_command = Command::Copy(CopyCommand::default());
    assert_eq!(copy_command.push(b'A'), Ok(()));
}

#[test]
fn test_command_bytes() {
    let command = Command::Copy(CopyCommand::default());
    assert_eq!(command.as_bytes(), vec![CopyCommand::COMMAND_SIGN, 0]);
}

#[test]
fn test_command_methods() {
    let command = Command::Copy(CopyCommand::default());
    assert_eq!(command.copy(), Some(&CopyCommand::default()));
    assert_eq!(command.add(), None);
    assert_eq!(command.remove(), None);
}

#[test]
fn command_push_reaches_the_variant() {
    let mut command = Command::Add(AddCommand::default());
    assert_eq!(command.push(b'a'), Ok(()));
    assert_eq!(command.push_chunk(b"bc"), Ok(()));
    assert_eq!(command.add().unwrap().bytes(), b"abc");
    assert_eq!(command.as_bytes(), vec![b'+', 3, b'a', b'b', b'c']);
    let mut command = Command::Remove(RemoveCommand::new(vec![0; 255]).unwrap());
    assert_eq!(command.push(b'a'), Err(CommandError::ByteLimitReached(255)));
    assert_eq!(command.remove().unwrap().length(), 255);
    let mut command = Command::Copy(CopyCommand::new(1));
    assert_eq!(command.push_chunk(b"xyz"), Ok(()));
    assert_eq!(command.copy().unwrap().length(), 4);
}

#[test]
fn command_from_bytes_tells_by_sign() {
    let bytes = [b'#', 4, b'-', 1, b'q', b'+', 0];
    let mut cursor = ByteCursor::new(&bytes);
    assert_eq!(
        Command::from_bytes(&mut cursor).unwrap(),
        Command::Copy(CopyCommand::new(4))
    );
    assert_eq!(
        Command::from_bytes(&mut cursor).unwrap(),
        Command::Remove(RemoveCommand::new(b"q".to_vec()).unwrap())
    );
    assert_eq!(
        Command::from_bytes(&mut cursor).unwrap(),
        Command::Add(AddCommand::default())
    );
    assert_eq!(cursor.remaining(), 0);
    assert_eq!(
        Command::from_bytes(&mut cursor).unwrap_err(),
        CommandError::ExpectedCommandSign(Command::COMMAND_SIGN)
    );
}

#[test]
fn command_from_bytes_errors() {
    assert_eq!(Command::COMMAND_SIGN, b'?');
    assert_eq!(
        Command::from_bytes(&mut ByteCursor::new(b"lol")).unwrap_err(),
        CommandError::ExpectedCommandSign(b'?')
    );
    assert_eq!(
        Command::from_bytes(&mut ByteCursor::new(b"-")).unwrap_err(),
        CommandError::ExpectedCommandLength
    );
    assert_eq!(
        Command::from_bytes(&mut ByteCursor::new(&[b'-', 2, 0])).unwrap_err(),
        CommandError::ExpectedChangeBytes
    );
}
