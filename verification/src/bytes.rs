//! Comparisons of byte slices.

use vstd::prelude::*;

verus! {

/// Whether `given` holds `expected` at `pos`.
pub fn holds_at(given: &[u8], pos: usize, expected: &[u8]) -> (r: bool)
    ensures
        r == (pos + expected@.len() <= given@.len() && given@.subrange(
            pos as int,
            pos + expected@.len(),
        ) == expected@),
{
    if pos > given.len() || expected.len() > given.len() - pos {
        return false;
    }
    let mut k: usize = 0;
    while k < expected.len()
        invariant
            k <= expected@.len(),
            pos + expected@.len() <= given@.len() <= usize::MAX,
            given@.subrange(pos as int, pos + k) == expected@.take(k as int),
        decreases expected.len() - k,
    {
        if given[pos + k] != expected[k] {
            assert(given@.subrange(pos as int, pos + expected@.len())[k as int]
                != expected@[k as int]);
            return false;
        }
        k = k + 1;
        assert(given@.subrange(pos as int, pos + k) =~= given@.subrange(
            pos as int,
            pos + k - 1,
        ).push(given@[pos + k - 1]));
        assert(expected@.take(k as int) =~= expected@.take(k - 1).push(expected@[k - 1]));
    }
    assert(expected@.take(k as int) =~= expected@);
    true
}

/// Whether `first` and `second` hold the same bytes.
pub fn same_bytes(first: &[u8], second: &[u8]) -> (same: bool)
    ensures
        same == (first@ == second@),
{
    if first.len() != second.len() {
        return false;
    }
    let same = holds_at(first, 0, second);
    assert(first@.subrange(0, second@.len() as int) =~= first@);
    same
}

} // verus!
