use deltapatch::commands::commands_enum::{CommandBytes, CommandError, PushToCommand};
use deltapatch::commands::copy_command::{CopyCommand, CopyLength};
use deltapatch::cursor::ByteCursor;

#[test]
fn copy_command_new() {
    assert_eq!(CopyCommand::new(0).length(), 0);
    assert_eq!(CopyCommand::default().length(), 0);
    assert_eq!(CopyCommand::new(CopyLength::MAX).length(), CopyLength::MAX);
}

#[test]
fn copy_command_push() {
    let mut command = CopyCommand::new(CopyLength::MAX - 1);
    assert!(command.push(b'A').is_ok());
    assert_eq!(command.length(), CopyLength::MAX);
    assert!(command.push(b'A').is_err());
}

#[test]
fn copy_command_push_chunk() {
    let mut command = CopyCommand::new(CopyLength::MAX - 2);
    assert!(command.push_chunk(b"AA").is_ok());
    assert_eq!(command.length(), CopyLength::MAX);
    assert!(command.push_chunk(b"AA").is_err());
}

#[test]
fn copy_command_as_bytes() {
    assert_eq!(
        CopyCommand::default().as_bytes(),
        vec![CopyCommand::COMMAND_SIGN, 0]
    );
    assert_eq!(
        CopyCommand::new(CopyLength::MAX).as_bytes(),
        vec![CopyCommand::COMMAND_SIGN, CopyLength::MAX]
    );
}

#[test]
fn copy_command_from_bytes() {
    let bytes = vec![CopyCommand::COMMAND_SIGN, 0 as u8];
    let copy = CopyCommand::from_bytes(&mut ByteCursor::new(&bytes));
    assert!(copy.is_ok());
    assert_eq!(copy.unwrap(), CopyCommand::default());

    let bytes = b"lol";
    let copy = CopyCommand::from_bytes(&mut ByteCursor::new(bytes));
    assert!(copy.is_err());
    assert_eq!(
        copy.unwrap_err(),
        CommandError::ExpectedCommandSign(CopyCommand::COMMAND_SIGN)
    );
}

#[test]
fn copy_command_sign_is_hash() {
    assert_eq!(CopyCommand::COMMAND_SIGN, b'#');
}

#[test]
fn copy_command_push_chunk_counts_bytes() {
    let mut command = CopyCommand::new(5);
    assert_eq!(command.push_chunk(&[0; 250]), Ok(()));
    assert_eq!(command.length(), 255);
    let mut command = CopyCommand::new(5);
    assert_eq!(
        command.push_chunk(&[0; 251]),
        Err(CommandError::ByteLimitReached(255))
    );
    assert_eq!(command.length(), 5);
    assert_eq!(command.push_chunk(&[0; 300]).is_err(), true);
    assert_eq!(command.length(), 5);
}

#[test]
fn copy_command_from_bytes_missing_length() {
    let mut cursor = ByteCursor::new(&[b'#']);
    assert_eq!(
        CopyCommand::from_bytes(&mut cursor).unwrap_err(),
        CommandError::ExpectedCommandLength
    );
    assert_eq!(cursor.remaining(), 1);
    let empty: [u8; 0] = [];
    assert_eq!(
        CopyCommand::from_bytes(&mut ByteCursor::new(&empty)).unwrap_err(),
        CommandError::ExpectedCommandSign(b'#')
    );
}
