use deltapatch::delta::lcs::LCS;

pub struct TestStruct();

impl LCS for TestStruct {}

#[test]
fn test_lcs() {
    assert_eq!(TestStruct::lcs(b"AGGTAB", b"GXTXAYB"), b"GTAB".to_vec());
    assert_eq!(TestStruct::lcs(b"AAA", b"ABA"), b"AA".to_vec());
    assert_eq!(TestStruct::lcs(b"", b""), b"".to_vec());
    assert_eq!(TestStruct::lcs(b"AAA", b""), b"".to_vec());
}

fn is_subsequence(part: &[u8], whole: &[u8]) -> bool {
    let mut at = 0;
    for byte in whole {
        if at < part.len() && part[at] == *byte {
            at += 1;
        }
    }
    at == part.len()
}

#[test]
fn lcs_is_a_common_subsequence_of_full_length() {
    let cases: Vec<(&[u8], &[u8], usize)> = vec![
        (b"ABCBDAB", b"BDCABA", 4),
        (b"XMJYAUZ", b"MZJAWXU", 4),
        (b"abc", b"xyz", 0),
        (b"", b"xyz", 0),
        (b"same", b"same", 4),
        (b"aaaa", b"aa", 2),
    ];
    for (source, target, length) in cases {
        let common = TestStruct::lcs(source, target);
        assert_eq!(common.len(), length);
        assert!(is_subsequence(&common, source));
        assert!(is_subsequence(&common, target));
    }
    assert_eq!(TestStruct::lcs(b"ABCBDAB", b"BDCABA"), b"BDAB".to_vec());
    assert_eq!(TestStruct::lcs(b"AB", b"BA"), b"B".to_vec());
}
