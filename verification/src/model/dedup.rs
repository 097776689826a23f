//! Replacing a repeated step by a back-reference to its earlier occurrence.

use vstd::prelude::*;
use crate::model::apply::resolve;
use crate::model::greedy::{raw_ops, reference_free};
use crate::model::op::{all_fit, Format, Op};

verus! {

/// Whether a step may be replaced by a back-reference. Copies may only
/// where `dedup_copies` allows it.
pub open spec fn referable(op: Op, dedup_copies: bool) -> bool {
    !(op is Copy) || dedup_copies
}

/// The least position in `from..to` at which `list` holds `op`, if any.
pub open spec fn first_match(list: Seq<Op>, op: Op, from: int, to: int) -> Option<int>
    decreases to - from,
{
    if from >= to {
        None
    } else if list[from] == op {
        Some(from)
    } else {
        first_match(list, op, from + 1, to)
    }
}

/// What `first_match` finds is the least position of the range that holds
/// `op`; it finds nothing only where none does.
pub proof fn lemma_first_match(list: Seq<Op>, op: Op, from: int, to: int)
    ensures
        match first_match(list, op, from, to) {
            Some(at) => from <= at < to && list[at] == op && forall|k: int|
                from <= k < at ==> list[k] != op,
            None => forall|k: int| from <= k < to ==> list[k] != op,
        },
    decreases to - from,
{
    if from < to && list[from] != op {
        lemma_first_match(list, op, from + 1, to);
    }
}

/// The index by which a step appended to `list` can refer to an equal
/// earlier step: the distance of its first occurrence from the base that
/// the format gives the new position, if there is such an occurrence and
/// the format can hold the index.
pub open spec fn reference_index(list: Seq<Op>, op: Op, format: Format) -> Option<nat> {
    let base = format.base(list.len() as int);
    match first_match(list, op, base, list.len() as int) {
        Some(at) => if at - base <= format.max_index() {
            Some((at - base) as nat)
        } else {
            None
        },
        None => None,
    }
}

/// The step that is stored when `op` is appended to `list`: a reference
/// where `op` is referable and occurs earlier within reach, `op` itself
/// otherwise.
pub open spec fn stored(list: Seq<Op>, op: Op, format: Format, dedup_copies: bool) -> Op {
    if referable(op, dedup_copies) {
        match reference_index(list, op, format) {
            Some(index) => Op::Reference(index),
            None => op,
        }
    } else {
        op
    }
}

/// `list` after every step of `ops` was appended in turn, each in its
/// stored form.
pub open spec fn append_all(
    list: Seq<Op>,
    ops: Seq<Op>,
    format: Format,
    dedup_copies: bool,
) -> Seq<Op>
    decreases ops.len(),
{
    if ops.len() == 0 {
        list
    } else {
        append_all(
            list.push(stored(list, ops[0], format, dedup_copies)),
            ops.drop_first(),
            format,
            dedup_copies,
        )
    }
}

/// Appending a step and then more steps is appending them all.
pub proof fn lemma_append_cons(
    list: Seq<Op>,
    op: Op,
    rest: Seq<Op>,
    format: Format,
    dedup_copies: bool,
)
    ensures
        append_all(list, seq![op] + rest, format, dedup_copies) == append_all(
            list.push(stored(list, op, format, dedup_copies)),
            rest,
            format,
            dedup_copies,
        ),
{
    let ops = seq![op] + rest;
    assert(ops[0] == op);
    assert(ops.drop_first() =~= rest);
}

/// Appending two runs of steps one after the other is appending their
/// concatenation.
pub proof fn lemma_append_concat(
    list: Seq<Op>,
    first: Seq<Op>,
    second: Seq<Op>,
    format: Format,
    dedup_copies: bool,
)
    ensures
        append_all(list, first + second, format, dedup_copies) == append_all(
            append_all(list, first, format, dedup_copies),
            second,
            format,
            dedup_copies,
        ),
    decreases first.len(),
{
    if first.len() == 0 {
        assert(first + second =~= second);
    } else {
        let all = first + second;
        assert(all[0] == first[0]);
        assert(all.drop_first() =~= first.drop_first() + second);
        lemma_append_concat(
            list.push(stored(list, first[0], format, dedup_copies)),
            first.drop_first(),
            second,
            format,
            dedup_copies,
        );
    }
}

/// Whether `list` stands for `raw` step by step: it is as long, and each of
/// its positions resolves to the step that `raw` holds there.
pub open spec fn stands_for(list: Seq<Op>, raw: Seq<Op>, format: Format) -> bool {
    &&& list.len() == raw.len()
    &&& forall|i: int| 0 <= i < list.len() ==> #[trigger] resolve(list, i, format) == Some(raw[i])
}

/// A list that stands for reference-free steps still does after more such
/// steps were appended in their stored form, and it grows by their number.
pub proof fn lemma_append_stands_for(
    list: Seq<Op>,
    raw: Seq<Op>,
    ops: Seq<Op>,
    format: Format,
    dedup_copies: bool,
)
    requires
        stands_for(list, raw, format),
        reference_free(ops),
    ensures
        stands_for(append_all(list, ops, format, dedup_copies), raw + ops, format),
    decreases ops.len(),
{
    if ops.len() == 0 {
        assert(raw + ops =~= raw);
    } else {
        let op = ops[0];
        let kept = stored(list, op, format, dedup_copies);
        let longer = list.push(kept);
        lemma_first_match(list, op, format.base(list.len() as int), list.len() as int);
        assert(!(op is Reference));
        assert forall|i: int| 0 <= i < longer.len() implies #[trigger] resolve(longer, i, format)
            == Some(raw.push(op)[i]) by {
            if i < list.len() {
                assert(resolve(list, i, format) == Some(raw[i]));
            }
        }
        lemma_append_stands_for(longer, raw.push(op), ops.drop_first(), format, dedup_copies);
        assert(raw.push(op) + ops.drop_first() =~= raw + ops);
    }
}

/// Appending steps that fit to a list that fits gives a list that fits.
pub proof fn lemma_append_fits(list: Seq<Op>, ops: Seq<Op>, format: Format, dedup_copies: bool)
    requires
        all_fit(list, format),
        all_fit(ops, format),
    ensures
        all_fit(append_all(list, ops, format, dedup_copies), format),
    decreases ops.len(),
{
    if ops.len() > 0 {
        let longer = list.push(stored(list, ops[0], format, dedup_copies));
        assert(ops[0].fits(format));
        lemma_first_match(list, ops[0], format.base(list.len() as int), list.len() as int);
        assert forall|i: int| 0 <= i < longer.len() implies (#[trigger] longer[i]).fits(format) by {
            if i < list.len() {
                assert(list[i].fits(format));
            }
        }
        assert forall|i: int| 0 <= i < ops.drop_first().len() implies (
        #[trigger] ops.drop_first()[i]).fits(format) by {
            assert(ops[i + 1].fits(format));
        }
        lemma_append_fits(longer, ops.drop_first(), format, dedup_copies);
    }
}

/// The patch that turns `source` into `target`.
pub open spec fn encode_ops(
    source: Seq<u8>,
    target: Seq<u8>,
    format: Format,
    dedup_copies: bool,
) -> Seq<Op> {
    append_all(Seq::empty(), raw_ops(source, target, 0), format, dedup_copies)
}

} // verus!
