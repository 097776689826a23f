use deltapatch::bytes::{holds_at, same_bytes};
use deltapatch::compression::{judge, roundtrip, RoundtripError, LEVEL, LIMIT};
use deltapatch::delta_p::DeltaPatch;
use deltapatch::instructions::instruction::ToBytes;

#[test]
fn roundtrip_of_patch_text() {
    let data = b"-4AAAA+4BBBB#3-8CCCCAAAA+8EEEEEEEE";
    let compressed = roundtrip(data).unwrap();
    assert_ne!(compressed, data.to_vec());
    assert_eq!(compressed, miniz_oxide::deflate::compress_to_vec(data, 9));
    assert_eq!(
        miniz_oxide::inflate::decompress_to_vec(&compressed).unwrap(),
        data.to_vec()
    );
}

#[test]
fn roundtrip_shrinks_repetitive_bytes() {
    let data = vec![b'A'; 5000];
    let compressed = roundtrip(&data).unwrap();
    assert!(compressed.len() < 100);
    assert_eq!(roundtrip(b"").map(|compressed| compressed.is_empty()), Ok(false));
}

#[test]
fn roundtrip_of_encoded_patch() {
    let patch = DeltaPatch::encode(b"AAABBBAAABBB", b"AAAXXXAAADDDFFF");
    let bytes = patch.to_bytes();
    let compressed = roundtrip(&bytes).unwrap();
    let back = miniz_oxide::inflate::decompress_to_vec_with_limit(&compressed, LIMIT).unwrap();
    assert_eq!(DeltaPatch::decode(&back).unwrap().instructions(), patch.instructions());
}

#[test]
fn roundtrip_fails_beyond_the_limit() {
    assert_eq!(LEVEL, 9);
    assert_eq!(LIMIT, 60000);
    assert!(roundtrip(&vec![7u8; 60000]).is_ok());
    assert_eq!(
        roundtrip(&vec![7u8; 60001]),
        Err(RoundtripError::FailedToDecompress)
    );
}

#[test]
fn judge_tells_the_three_outcomes() {
    assert_eq!(judge(b"abc", Some(b"abc")), Ok(()));
    assert_eq!(judge(b"abc", Some(b"abd")), Err(RoundtripError::Differs));
    assert_eq!(judge(b"abc", Some(b"ab")), Err(RoundtripError::Differs));
    assert_eq!(judge(b"abc", None), Err(RoundtripError::FailedToDecompress));
    assert_eq!(judge(b"", Some(b"")), Ok(()));
}

#[test]
fn byte_comparisons() {
    assert!(same_bytes(b"xy", b"xy"));
    assert!(same_bytes(b"", b""));
    assert!(!same_bytes(b"xy", b"xz"));
    assert!(!same_bytes(b"xy", b"xyz"));
    assert!(!same_bytes(b"xyz", b"xy"));
    assert!(holds_at(b"abcdef", 2, b"cd"));
    assert!(holds_at(b"abcdef", 6, b""));
    assert!(holds_at(b"abcdef", 0, b"abcdef"));
    assert!(!holds_at(b"abcdef", 2, b"ce"));
    assert!(!holds_at(b"abcdef", 5, b"fg"));
    assert!(!holds_at(b"abcdef", 1, b"abcdef"));
}
