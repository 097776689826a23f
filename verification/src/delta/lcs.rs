//! The longest common subsequence of two byte sequences.

use vstd::prelude::*;

verus! {

/// The length of the longest sequence that can be had from the first `i`
/// bytes of `source` and from the first `j` bytes of `target` by leaving
/// bytes out.
pub open spec fn lcs_len(source: Seq<u8>, target: Seq<u8>, i: int, j: int) -> nat
    decreases i + j,
{
    if i <= 0 || j <= 0 {
        0
    } else if source[i - 1] == target[j - 1] {
        lcs_len(source, target, i - 1, j - 1) + 1
    } else if lcs_len(source, target, i - 1, j) > lcs_len(source, target, i, j - 1) {
        lcs_len(source, target, i - 1, j)
    } else {
        lcs_len(source, target, i, j - 1)
    }
}

/// One longest common subsequence of the first `i` bytes of `source` and
/// the first `j` bytes of `target`: the one found by walking back from
/// `(i, j)`, taking a byte where the two agree, and otherwise stepping
/// back in `source` only where that alone keeps the length.
pub open spec fn lcs_of(source: Seq<u8>, target: Seq<u8>, i: int, j: int) -> Seq<u8>
    decreases i + j,
{
    if i <= 0 || j <= 0 {
        Seq::empty()
    } else if source[i - 1] == target[j - 1] {
        lcs_of(source, target, i - 1, j - 1).push(source[i - 1])
    } else if lcs_len(source, target, i - 1, j) > lcs_len(source, target, i, j - 1) {
        lcs_of(source, target, i - 1, j)
    } else {
        lcs_of(source, target, i, j - 1)
    }
}

/// Whether `part` can be had from `whole` by leaving bytes out.
pub open spec fn is_subsequence(part: Seq<u8>, whole: Seq<u8>) -> bool
    decreases whole.len(),
{
    if part.len() == 0 {
        true
    } else if whole.len() == 0 {
        false
    } else {
        ||| part.last() == whole.last() && is_subsequence(part.drop_last(), whole.drop_last())
        ||| is_subsequence(part, whole.drop_last())
    }
}

/// The length of a common subsequence of prefixes is bounded by the
/// lengths of the prefixes.
pub proof fn lemma_lcs_len_bounded(source: Seq<u8>, target: Seq<u8>, i: int, j: int)
    requires
        0 <= i,
        0 <= j,
    ensures
        lcs_len(source, target, i, j) <= i,
        lcs_len(source, target, i, j) <= j,
    decreases i + j,
{
    if i > 0 && j > 0 {
        lemma_lcs_len_bounded(source, target, i - 1, j - 1);
        lemma_lcs_len_bounded(source, target, i - 1, j);
        lemma_lcs_len_bounded(source, target, i, j - 1);
    }
}

/// The subsequence found by walking back has the length that the table
/// gives.
pub proof fn lemma_lcs_of_len(source: Seq<u8>, target: Seq<u8>, i: int, j: int)
    ensures
        lcs_of(source, target, i, j).len() == lcs_len(source, target, i, j),
    decreases i + j,
{
    if i > 0 && j > 0 {
        lemma_lcs_of_len(source, target, i - 1, j - 1);
        lemma_lcs_of_len(source, target, i - 1, j);
        lemma_lcs_of_len(source, target, i, j - 1);
    }
}

/// What can be had from a sequence can be had from it with a byte more.
pub proof fn lemma_subsequence_extends(part: Seq<u8>, whole: Seq<u8>, byte: u8)
    requires
        is_subsequence(part, whole),
    ensures
        is_subsequence(part, whole.push(byte)),
{
    assert(whole.push(byte).drop_last() =~= whole);
}

/// What can be had from a sequence can, without its last byte, be had from
/// the sequence without its last byte.
pub proof fn lemma_subsequence_shrinks(part: Seq<u8>, whole: Seq<u8>)
    requires
        is_subsequence(part, whole),
        part.len() > 0,
    ensures
        whole.len() > 0,
        is_subsequence(part.drop_last(), whole.drop_last()),
    decreases whole.len(),
{
    if !(part.last() == whole.last() && is_subsequence(part.drop_last(), whole.drop_last())) {
        lemma_subsequence_shrinks(part, whole.drop_last());
        lemma_subsequence_extends(
            part.drop_last(),
            whole.drop_last().drop_last(),
            whole.drop_last().last(),
        );
        assert(whole.drop_last().drop_last().push(whole.drop_last().last()) =~= whole.drop_last());
    }
}

/// The subsequence found by walking back can be had from the prefix of
/// `source` and from the prefix of `target`.
pub proof fn lcs_is_common(source: Seq<u8>, target: Seq<u8>, i: int, j: int)
    requires
        0 <= i <= source.len(),
        0 <= j <= target.len(),
    ensures
        is_subsequence(lcs_of(source, target, i, j), source.take(i)),
        is_subsequence(lcs_of(source, target, i, j), target.take(j)),
    decreases i + j,
{
    if i > 0 && j > 0 {
        let found = lcs_of(source, target, i, j);
        assert(source.take(i).drop_last() =~= source.take(i - 1));
        assert(target.take(j).drop_last() =~= target.take(j - 1));
        if source[i - 1] == target[j - 1] {
            lcs_is_common(source, target, i - 1, j - 1);
            assert(found.drop_last() =~= lcs_of(source, target, i - 1, j - 1));
        } else if lcs_len(source, target, i - 1, j) > lcs_len(source, target, i, j - 1) {
            lcs_is_common(source, target, i - 1, j);
        } else {
            lcs_is_common(source, target, i, j - 1);
        }
    }
}

/// No sequence that can be had from the prefix of `source` and from the
/// prefix of `target` is longer than the subsequence found by walking
/// back.
pub proof fn lcs_is_longest(source: Seq<u8>, target: Seq<u8>, i: int, j: int, other: Seq<u8>)
    requires
        0 <= i <= source.len(),
        0 <= j <= target.len(),
        is_subsequence(other, source.take(i)),
        is_subsequence(other, target.take(j)),
    ensures
        other.len() <= lcs_len(source, target, i, j),
        other.len() <= lcs_of(source, target, i, j).len(),
    decreases i + j,
{
    lemma_lcs_of_len(source, target, i, j);
    if other.len() > 0 {
        assert(i > 0 && j > 0);
        assert(source.take(i).drop_last() =~= source.take(i - 1));
        assert(target.take(j).drop_last() =~= target.take(j - 1));
        if source[i - 1] == target[j - 1] {
            lemma_subsequence_shrinks(other, source.take(i));
            lemma_subsequence_shrinks(other, target.take(j));
            lcs_is_longest(source, target, i - 1, j - 1, other.drop_last());
        } else if other.last() != source[i - 1] {
            lcs_is_longest(source, target, i - 1, j, other);
        } else {
            lcs_is_longest(source, target, i, j - 1, other);
        }
    }
}

/// The table of the lengths of the longest common subsequences of all
/// prefixes: row `i`, column `j` is for the first `i` bytes of `source` and
/// the first `j` bytes of `target`.
fn lengths(source: &[u8], target: &[u8]) -> (table: Vec<Vec<usize>>)
    ensures
        table@.len() == source@.len() + 1,
        forall|r: int|
            0 <= r <= source@.len() ==> (#[trigger] table@[r])@.len() == target@.len() + 1,
        forall|r: int, c: int|
            0 <= r <= source@.len() && 0 <= c <= target@.len() ==> #[trigger] table@[r]@[c]
                == lcs_len(source@, target@, r, c),
{
    let s_len = source.len();
    let t_len = target.len();
    let mut table: Vec<Vec<usize>> = Vec::new();
    let mut i: usize = 0;
    loop
        invariant_except_break
            table@.len() == i,
        invariant
            s_len == source@.len(),
            t_len == target@.len(),
            i <= s_len,
            forall|r: int| 0 <= r < table@.len() ==> (#[trigger] table@[r])@.len() == t_len + 1,
            forall|r: int, c: int|
                0 <= r < table@.len() && 0 <= c <= t_len ==> #[trigger] table@[r]@[c] == lcs_len(
                    source@,
                    target@,
                    r,
                    c,
                ),
        ensures
            table@.len() == s_len + 1,
        decreases s_len - i,
    {
        let mut row: Vec<usize> = Vec::new();
        let mut j: usize = 0;
        loop
            invariant_except_break
                row@.len() == j,
            invariant
                s_len == source@.len(),
                t_len == target@.len(),
                i <= s_len,
                j <= t_len,
                table@.len() == i,
                forall|r: int| 0 <= r < i ==> (#[trigger] table@[r])@.len() == t_len + 1,
                forall|r: int, c: int|
                    0 <= r < i && 0 <= c <= t_len ==> #[trigger] table@[r]@[c] == lcs_len(
                        source@,
                        target@,
                        r,
                        c,
                    ),
                forall|c: int|
                    0 <= c < row@.len() ==> #[trigger] row@[c] == lcs_len(
                        source@,
                        target@,
                        i as int,
                        c,
                    ),
            ensures
                row@.len() == t_len + 1,
            decreases t_len - j,
        {
            let cell: usize = if i == 0 || j == 0 {
                0
            } else if source[i - 1] == target[j - 1] {
                proof {
                    lemma_lcs_len_bounded(source@, target@, i - 1, j - 1);
                }
                table[i - 1][j - 1] + 1
            } else {
                let above = table[i - 1][j];
                let left = row[j - 1];
                if above > left {
                    above
                } else {
                    left
                }
            };
            row.push(cell);
            if j == t_len {
                break;
            }
            j = j + 1;
        }
        table.push(row);
        if i == s_len {
            break;
        }
        i = i + 1;
    }
    table
}

/// Matchers that find a longest common subsequence.
pub trait LCS {
    /// The longest common subsequence of `source` and `target` that
    /// walking back through the table of lengths finds.
    fn lcs(source: &[u8], target: &[u8]) -> (common: Vec<u8>)
        ensures
            common@ == lcs_of(source@, target@, source@.len() as int, target@.len() as int),
            is_subsequence(common@, source@),
            is_subsequence(common@, target@),
            forall|other: Seq<u8>|
                is_subsequence(other, source@) && is_subsequence(other, target@)
                    ==> other.len() <= common@.len(),
    {
        let s_len = source.len();
        let t_len = target.len();
        let table = lengths(source, target);
        let total = table[s_len][t_len];
        let mut lcs: Vec<u8> = Vec::new();
        let mut filled: usize = 0;
        while filled < total
            invariant
                filled <= total,
                lcs@.len() == filled,
            decreases total - filled,
        {
            lcs.push(0);
            filled = filled + 1;
        }
        let mut index = total;
        let mut i = s_len;
        let mut j = t_len;
        let ghost whole = lcs_of(source@, target@, s_len as int, t_len as int);
        proof {
            lemma_lcs_of_len(source@, target@, s_len as int, t_len as int);
            assert(lcs@.subrange(index as int, total as int) =~= Seq::<u8>::empty());
            assert(whole =~= whole + Seq::<u8>::empty());
        }
        while i > 0 && j > 0
            invariant
                s_len == source@.len(),
                t_len == target@.len(),
                i <= s_len,
                j <= t_len,
                index <= total,
                lcs@.len() == total,
                index == lcs_len(source@, target@, i as int, j as int),
                whole == lcs_of(source@, target@, i as int, j as int) + lcs@.subrange(
                    index as int,
                    total as int,
                ),
                table@.len() == s_len + 1,
                forall|r: int|
                    0 <= r <= s_len ==> (#[trigger] table@[r])@.len() == t_len + 1,
                forall|r: int, c: int|
                    0 <= r <= s_len && 0 <= c <= t_len ==> #[trigger] table@[r]@[c] == lcs_len(
                        source@,
                        target@,
                        r,
                        c,
                    ),
            decreases i + j,
        {
            if source[i - 1] == target[j - 1] {
                let ghost before = lcs@;
                lcs.set(index - 1, source[i - 1]);
                proof {
                    let shorter = lcs_of(source@, target@, i - 1, j - 1);
                    assert(lcs@.subrange(index - 1, total as int) =~= seq![source@[i - 1]]
                        + before.subrange(index as int, total as int));
                    assert(shorter.push(source@[i - 1]) + before.subrange(
                        index as int,
                        total as int,
                    ) =~= shorter + lcs@.subrange(index - 1, total as int));
                }
                i = i - 1;
                j = j - 1;
                index = index - 1;
            } else if table[i - 1][j] > table[i][j - 1] {
                i = i - 1;
            } else {
                j = j - 1;
            }
        }
        proof {
            assert(lcs_of(source@, target@, i as int, j as int) =~= Seq::<u8>::empty());
            assert(lcs@.subrange(0, total as int) =~= lcs@);
            assert(Seq::<u8>::empty() + lcs@ =~= lcs@);
            assert(source@.take(s_len as int) =~= source@);
            assert(target@.take(t_len as int) =~= target@);
            lcs_is_common(source@, target@, s_len as int, t_len as int);
            assert forall|other: Seq<u8>|
                is_subsequence(other, source@) && is_subsequence(other, target@) implies other.len()
                <= lcs@.len() by {
                lcs_is_longest(source@, target@, s_len as int, t_len as int, other);
            }
        }
        lcs
    }
}

} // verus!
