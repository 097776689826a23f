use deltapatch::commands::command_util::{ChunkError, FromBytesError, ToBytes};
use deltapatch::commands::copy::CopyCommand;
use deltapatch::cursor::ByteCursor;

#[test]
fn increment() {
    let mut copy = CopyCommand::new(u8::MAX - 1);
    assert!(copy.increment().is_ok());
    assert!(copy.increment().is_err());
    assert_eq!(copy.chunk_length(), u8::MAX);
}

#[test]
fn increment_by() {
    let mut copy = CopyCommand::new(u8::MAX - 1);
    assert!(copy.increment_by(1).is_ok());
    assert!(copy.increment_by(1).is_err());
    assert_eq!(copy.chunk_length(), u8::MAX);
}

#[test]
fn copy_try_from_iter_bytes() {
    let bytes = CopyCommand::default().to_bytes();
    let copy = CopyCommand::try_from(&mut ByteCursor::new(&bytes[1..]));
    assert!(copy.is_ok());
    assert_eq!(copy.unwrap().to_bytes(), bytes);
}

#[test]
fn copy_increment_by_adds_exactly() {
    let mut copy = CopyCommand::new(10);
    assert_eq!(copy.increment_by(245), Ok(()));
    assert_eq!(copy.chunk_length(), 255);
    let mut copy = CopyCommand::new(10);
    assert_eq!(copy.increment_by(246), Err(ChunkError::ChunkLengthOverFlow));
    assert_eq!(copy.chunk_length(), 10);
    assert_eq!(copy.increment(), Ok(()));
    assert_eq!(copy.chunk_length(), 11);
}

#[test]
fn copy_to_bytes_and_back() {
    assert_eq!(CopyCommand::new(7).to_bytes(), vec![b'#', 7]);
    let bytes = [9u8, 1];
    let mut cursor = ByteCursor::new(&bytes);
    assert_eq!(CopyCommand::try_from(&mut cursor).unwrap(), CopyCommand::new(9));
    assert_eq!(cursor.remaining(), 1);
    let empty: [u8; 0] = [];
    assert_eq!(
        CopyCommand::try_from(&mut ByteCursor::new(&empty)).unwrap_err(),
        FromBytesError::ExpectedChunkLength
    );
}
