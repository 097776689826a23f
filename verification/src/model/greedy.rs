//! What the single left-to-right pass over source and target emits, before
//! any step is replaced by a back-reference.

use vstd::prelude::*;
use crate::model::op::{all_fit, Format, Op};

verus! {

/// The length of the region in which source and target are compared byte by
/// byte: the length of the shorter of the two.
pub open spec fn shared_len(source: Seq<u8>, target: Seq<u8>) -> int {
    if source.len() <= target.len() {
        source.len() as int
    } else {
        target.len() as int
    }
}

/// The number of consecutive positions from `p` on, inside the compared
/// region, at which the two sequences agree (`agree`) or differ (`!agree`).
pub open spec fn run_len(source: Seq<u8>, target: Seq<u8>, p: int, agree: bool) -> nat
    decreases shared_len(source, target) - p,
{
    if 0 <= p < shared_len(source, target) && (source[p] == target[p]) == agree {
        1 + run_len(source, target, p + 1, agree)
    } else {
        0
    }
}

/// A run that starts inside the compared region has at least one position
/// and ends inside the region.
pub proof fn lemma_run_stays_inside(source: Seq<u8>, target: Seq<u8>, p: int, agree: bool)
    requires
        0 <= p <= shared_len(source, target),
    ensures
        p + run_len(source, target, p, agree) <= shared_len(source, target),
        p < shared_len(source, target) && (source[p] == target[p]) == agree
            ==> run_len(source, target, p, agree) >= 1,
    decreases shared_len(source, target) - p,
{
    if p < shared_len(source, target) && (source[p] == target[p]) == agree {
        lemma_run_stays_inside(source, target, p + 1, agree);
    }
}

/// The steps for a run of `n` differing positions that starts at `p`: a
/// remove and an add for each full 255 bytes, then a remove and an add for
/// what is left, which may be nothing.
pub open spec fn diff_ops(source: Seq<u8>, target: Seq<u8>, p: int, n: nat) -> Seq<Op>
    decreases n,
{
    if n >= 255 {
        seq![Op::Remove(source.subrange(p, p + 255)), Op::Add(target.subrange(p, p + 255))]
            + diff_ops(source, target, p + 255, (n - 255) as nat)
    } else {
        seq![Op::Remove(source.subrange(p, p + n)), Op::Add(target.subrange(p, p + n))]
    }
}

/// The steps for the bytes of `bytes` from `p` to its end, in pieces of at
/// most 255 bytes: removes if `removing`, adds otherwise. Nothing where
/// `p` is the end.
pub open spec fn tail_ops(bytes: Seq<u8>, p: int, removing: bool) -> Seq<Op>
    decreases bytes.len() - p,
{
    if p < 0 || p >= bytes.len() {
        Seq::empty()
    } else {
        let n = if bytes.len() - p > 255 {
            255
        } else {
            bytes.len() - p
        };
        let piece = bytes.subrange(p, p + n);
        seq![if removing { Op::Remove(piece) } else { Op::Add(piece) }]
            + tail_ops(bytes, p + n, removing)
    }
}

/// The steps that the pass emits from position `p` of the compared region on.
///
/// At a position where the sequences agree, one copy of the agreeing run,
/// cut at 255. At a position where they differ, the steps of the whole
/// differing run. Behind the compared region, the rest of the longer
/// sequence.
pub open spec fn raw_ops(source: Seq<u8>, target: Seq<u8>, p: int) -> Seq<Op>
    decreases shared_len(source, target) - p,
{
    if 0 <= p < shared_len(source, target) {
        proof {
            lemma_run_stays_inside(source, target, p, source[p] == target[p]);
        }
        if source[p] == target[p] {
            let run = run_len(source, target, p, true);
            let n = if run > 255 { 255 } else { run as int };
            seq![Op::Copy(n as nat)] + raw_ops(source, target, p + n)
        } else {
            let n = run_len(source, target, p, false);
            diff_ops(source, target, p, n) + raw_ops(source, target, p + n)
        }
    } else {
        let end = shared_len(source, target);
        tail_ops(source, end, true) + tail_ops(target, end, false)
    }
}

/// Whether no step of `ops` is a reference.
pub open spec fn reference_free(ops: Seq<Op>) -> bool {
    forall|i: int| 0 <= i < ops.len() ==> !((#[trigger] ops[i]) is Reference)
}

/// Every position of a run agrees, or differs, as the run says.
pub proof fn lemma_run_is_uniform(source: Seq<u8>, target: Seq<u8>, p: int, agree: bool)
    requires
        0 <= p,
    ensures
        forall|k: int|
            p <= k < p + run_len(source, target, p, agree) ==> (source[k] == target[k]) == agree,
    decreases shared_len(source, target) - p,
{
    if p < shared_len(source, target) && (source[p] == target[p]) == agree {
        lemma_run_is_uniform(source, target, p + 1, agree);
    }
}

/// The steps of a differing run are adds and removes of at most 255 bytes.
pub proof fn lemma_diff_ops_shape(source: Seq<u8>, target: Seq<u8>, p: int, n: nat)
    requires
        0 <= p,
        p + n <= shared_len(source, target),
    ensures
        reference_free(diff_ops(source, target, p, n)),
        all_fit(diff_ops(source, target, p, n), Format::Wide),
        all_fit(diff_ops(source, target, p, n), Format::Compact),
    decreases n,
{
    if n >= 255 {
        lemma_diff_ops_shape(source, target, p + 255, (n - 255) as nat);
    }
}

/// The steps of a tail are adds or removes of at most 255 bytes.
pub proof fn lemma_tail_ops_shape(bytes: Seq<u8>, p: int, removing: bool)
    ensures
        reference_free(tail_ops(bytes, p, removing)),
        all_fit(tail_ops(bytes, p, removing), Format::Wide),
        all_fit(tail_ops(bytes, p, removing), Format::Compact),
    decreases bytes.len() - p,
{
    if 0 <= p < bytes.len() {
        let n = if bytes.len() - p > 255 {
            255
        } else {
            bytes.len() - p
        };
        lemma_tail_ops_shape(bytes, p + n, removing);
    }
}

/// What the pass emits holds no reference, and nothing longer than 255.
pub proof fn lemma_raw_ops_shape(source: Seq<u8>, target: Seq<u8>, p: int)
    requires
        0 <= p,
    ensures
        reference_free(raw_ops(source, target, p)),
        all_fit(raw_ops(source, target, p), Format::Wide),
        all_fit(raw_ops(source, target, p), Format::Compact),
    decreases shared_len(source, target) - p,
{
    let end = shared_len(source, target);
    if p < end {
        lemma_run_stays_inside(source, target, p, source[p] == target[p]);
        if source[p] == target[p] {
            let run = run_len(source, target, p, true);
            let n = if run > 255 {
                255
            } else {
                run as int
            };
            lemma_raw_ops_shape(source, target, p + n);
        } else {
            let n = run_len(source, target, p, false);
            lemma_diff_ops_shape(source, target, p, n);
            lemma_raw_ops_shape(source, target, p + n);
        }
    } else {
        lemma_tail_ops_shape(source, end, true);
        lemma_tail_ops_shape(target, end, false);
    }
}

} // verus!
