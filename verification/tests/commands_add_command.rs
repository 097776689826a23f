use deltapatch::commands::add_command::{AddCommand, AddLength};
use deltapatch::commands::commands_enum::{CommandBytes, CommandError, PushToCommand};
use deltapatch::cursor::ByteCursor;

#[test]
fn add_command_new() {
    let add = AddCommand::default();
    assert_eq!(add.length(), 0);
    assert_eq!(add.bytes(), b"");

    let add = AddCommand::new(b"AAA".to_vec()).unwrap();
    assert_eq!(add.length(), 3);
    assert_eq!(add.bytes(), b"AAA");

    let add = AddCommand::new(vec![0; AddLength::MAX as usize]).unwrap();
    assert_eq!(add.length(), AddLength::MAX);
    assert_eq!(add.bytes(), vec![0; AddLength::MAX as usize]);

    let add = AddCommand::new(vec![0; AddLength::MAX as usize + 1]);
    assert!(add.is_err());
    assert_eq!(
        add.unwrap_err(),
        CommandError::ByteLimitReached(AddLength::MAX.into())
    );
}

#[test]
fn add_command_push() {
    let mut add = AddCommand::new(vec![0; AddLength::MAX as usize - 1]).unwrap();
    assert_eq!(add.length(), AddLength::MAX - 1);
    assert!(add.push(b'A').is_ok());
    assert_eq!(add.length(), AddLength::MAX);
    assert!(add.push(b'A').is_err());
}

#[test]
fn add_command_push_chunk() {
    let mut add = AddCommand::new(vec![0; AddLength::MAX as usize - 2]).unwrap();
    assert_eq!(add.length(), AddLength::MAX - 2);
    assert!(add.push_chunk(b"AA").is_ok());
    assert_eq!(add.length(), AddLength::MAX);
    assert!(add.push_chunk(b"AA").is_err());
}

#[test]
fn add_command_as_bytes() {
    assert_eq!(
        AddCommand::default().as_bytes(),
        vec![AddCommand::COMMAND_SIGN, 0]
    );
    assert_eq!(
        AddCommand::new(b"AAA".to_vec()).unwrap().as_bytes(),
        vec![AddCommand::COMMAND_SIGN, 3, b'A', b'A', b'A']
    );
}

#[test]
fn add_command_from_bytes() {
    let bytes = vec![AddCommand::COMMAND_SIGN, 0 as u8];
    let add = AddCommand::from_bytes(&mut ByteCursor::new(&bytes));
    assert!(add.is_ok());
    assert_eq!(add.unwrap(), AddCommand::default());

    let bytes = b"lol";
    let add = AddCommand::from_bytes(&mut ByteCursor::new(bytes));
    assert!(add.is_err());
    assert_eq!(
        add.unwrap_err(),
        CommandError::ExpectedCommandSign(AddCommand::COMMAND_SIGN)
    );
}

#[test]
fn add_command_sign_is_plus() {
    assert_eq!(AddCommand::COMMAND_SIGN, b'+');
}

#[test]
fn add_command_push_failure_changes_nothing() {
    let mut add = AddCommand::new(vec![7; 255]).unwrap();
    assert_eq!(add.push(1), Err(CommandError::ByteLimitReached(255)));
    assert_eq!(add.bytes(), vec![7; 255]);
    let mut add = AddCommand::new(vec![7; 200]).unwrap();
    assert_eq!(
        add.push_chunk(&[1; 56]),
        Err(CommandError::ByteLimitReached(255))
    );
    assert_eq!(add.bytes(), vec![7; 200]);
    assert_eq!(add.push_chunk(&[1, 2]), Ok(()));
    assert_eq!(&add.bytes()[200..], &[1, 2]);
}

#[test]
fn add_command_from_bytes_reads_one_frame() {
    let bytes = [b'+', 2, b'h', b'i', b'+', 0];
    let mut cursor = ByteCursor::new(&bytes);
    let add = AddCommand::from_bytes(&mut cursor).unwrap();
    assert_eq!(add.bytes(), b"hi");
    assert_eq!(cursor.remaining(), 2);
}

#[test]
fn add_command_from_bytes_errors() {
    let empty: [u8; 0] = [];
    assert_eq!(
        AddCommand::from_bytes(&mut ByteCursor::new(&empty)).unwrap_err(),
        CommandError::ExpectedCommandSign(b'+')
    );
    assert_eq!(
        AddCommand::from_bytes(&mut ByteCursor::new(&[b'+'])).unwrap_err(),
        CommandError::ExpectedCommandLength
    );
    let short = [b'+', 3, b'a'];
    let mut cursor = ByteCursor::new(&short);
    assert_eq!(
        AddCommand::from_bytes(&mut cursor).unwrap_err(),
        CommandError::ExpectedChangeBytes
    );
    assert_eq!(cursor.remaining(), 3);
}
