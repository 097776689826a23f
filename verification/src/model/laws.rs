//! The laws of the codec: what holds of every source and target, and of
//! every list of steps.

use vstd::prelude::*;
use crate::delta_p::DecodeError;
use crate::delta_patch::ApplyPatchError;
use crate::model::apply::{
    apply, lemma_apply_is_run, lemma_run_concat, resolve, run, step, Direction,
};
use crate::model::dedup::{
    append_all, encode_ops, lemma_append_fits, lemma_append_stands_for, stands_for, stored,
};
use crate::model::greedy::{
    diff_ops, lemma_raw_ops_shape, lemma_run_is_uniform, lemma_run_stays_inside, raw_ops,
    run_len, shared_len, tail_ops,
};
use crate::model::op::{all_fit, Format, Op};
use crate::model::wire::{frame, frames, parse_all, parse_one};

verus! {

/// The sequence that an application in `direction` is given.
pub open spec fn given_side(source: Seq<u8>, target: Seq<u8>, direction: Direction) -> Seq<u8> {
    match direction {
        Direction::Forward => source,
        Direction::Reverse => target,
    }
}

/// The sequence that an application in `direction` rebuilds.
pub open spec fn rebuilt_side(source: Seq<u8>, target: Seq<u8>, direction: Direction) -> Seq<u8> {
    match direction {
        Direction::Forward => target,
        Direction::Reverse => source,
    }
}

/// Running two steps is taking the first and then the second.
proof fn lemma_run_pair(
    first: Op,
    second: Op,
    direction: Direction,
    given: Seq<u8>,
    pos: int,
    out: Seq<u8>,
)
    ensures
        run(seq![first, second], direction, given, pos, out) == match step(
            first,
            direction,
            given,
            pos,
            out,
        ) {
            Ok((mid_pos, mid_out)) => step(second, direction, given, mid_pos, mid_out),
            Err(e) => Err(e),
        },
{
    let both = seq![first, second];
    assert(both[0] == first);
    assert(both.drop_first() =~= seq![second]);
    assert(seq![second][0] == second);
    assert(seq![second].drop_first() =~= Seq::<Op>::empty());
    reveal_with_fuel(run, 3);
}

/// Running one step is taking it.
proof fn lemma_run_one(op: Op, direction: Direction, given: Seq<u8>, pos: int, out: Seq<u8>)
    ensures
        run(seq![op], direction, given, pos, out) == step(op, direction, given, pos, out),
{
    assert(seq![op][0] == op);
    assert(seq![op].drop_first() =~= Seq::<Op>::empty());
    reveal_with_fuel(run, 2);
}

/// A remove and an add of the same stretch of source and target move the
/// cursor over the stretch and write the stretch of the rebuilt side.
proof fn lemma_step_pair(
    source: Seq<u8>,
    target: Seq<u8>,
    p: int,
    k: int,
    direction: Direction,
)
    requires
        0 <= p,
        0 <= k,
        p + k <= shared_len(source, target),
    ensures
        run(
            seq![Op::Remove(source.subrange(p, p + k)), Op::Add(target.subrange(p, p + k))],
            direction,
            given_side(source, target, direction),
            p,
            rebuilt_side(source, target, direction).take(p),
        ) == Ok::<(int, Seq<u8>), ApplyPatchError>(
            (p + k, rebuilt_side(source, target, direction).take(p + k)),
        ),
{
    let given = given_side(source, target, direction);
    let rebuilt = rebuilt_side(source, target, direction);
    let remove = Op::Remove(source.subrange(p, p + k));
    let add = Op::Add(target.subrange(p, p + k));
    let out = rebuilt.take(p);
    lemma_run_pair(remove, add, direction, given, p, out);
    assert(out + Seq::<u8>::empty() =~= out);
    assert(out + rebuilt.subrange(p, p + k) =~= rebuilt.take(p + k));
    assert(rebuilt.take(p + k) + Seq::<u8>::empty() =~= rebuilt.take(p + k));
    assert(given.subrange(p, p) =~= Seq::<u8>::empty());
    assert(given.subrange(p + k, p + k) =~= Seq::<u8>::empty());
    match direction {
        Direction::Forward => {
            assert(step(remove, direction, given, p, out) == Ok::<(int, Seq<u8>), ApplyPatchError>(
                (p + k, out),
            ));
            assert(step(add, direction, given, p + k, out) == Ok::<(int, Seq<u8>), ApplyPatchError>(
                (p + k, rebuilt.take(p + k)),
            ));
        },
        Direction::Reverse => {
            assert(step(remove, direction, given, p, out) == Ok::<(int, Seq<u8>), ApplyPatchError>(
                (p, rebuilt.take(p + k)),
            ));
            assert(step(add, direction, given, p, rebuilt.take(p + k)) == Ok::<
                (int, Seq<u8>),
                ApplyPatchError,
            >((p + k, rebuilt.take(p + k))));
        },
    }
}

/// The steps of a differing run move the cursor over the run and write the
/// run of the rebuilt side.
proof fn lemma_run_diff(source: Seq<u8>, target: Seq<u8>, p: int, n: nat, direction: Direction)
    requires
        0 <= p,
        p + n <= shared_len(source, target),
    ensures
        run(
            diff_ops(source, target, p, n),
            direction,
            given_side(source, target, direction),
            p,
            rebuilt_side(source, target, direction).take(p),
        ) == Ok::<(int, Seq<u8>), ApplyPatchError>(
            (p + n, rebuilt_side(source, target, direction).take(p + n)),
        ),
    decreases n,
{
    if n >= 255 {
        lemma_step_pair(source, target, p, 255, direction);
        lemma_run_diff(source, target, p + 255, (n - 255) as nat, direction);
        lemma_run_concat(
            seq![Op::Remove(source.subrange(p, p + 255)), Op::Add(target.subrange(p, p + 255))],
            diff_ops(source, target, p + 255, (n - 255) as nat),
            direction,
            given_side(source, target, direction),
            p,
            rebuilt_side(source, target, direction).take(p),
        );
    } else {
        lemma_step_pair(source, target, p, n as int, direction);
    }
}

/// The steps of a tail of the given sequence move the cursor to its end
/// and write nothing.
proof fn lemma_run_tail_given(
    given: Seq<u8>,
    p: int,
    direction: Direction,
    out: Seq<u8>,
)
    requires
        0 <= p <= given.len(),
    ensures
        run(tail_ops(given, p, direction is Forward), direction, given, p, out) == Ok::<
            (int, Seq<u8>),
            ApplyPatchError,
        >((given.len() as int, out)),
    decreases given.len() - p,
{
    let removing = direction is Forward;
    if p < given.len() {
        let n = if given.len() - p > 255 {
            255
        } else {
            given.len() - p
        };
        let piece = given.subrange(p, p + n);
        let op = if removing {
            Op::Remove(piece)
        } else {
            Op::Add(piece)
        };
        lemma_run_concat(seq![op], tail_ops(given, p + n, removing), direction, given, p, out);
        lemma_run_one(op, direction, given, p, out);
        assert(out + Seq::<u8>::empty() =~= out);
        assert(step(op, direction, given, p, out) == Ok::<(int, Seq<u8>), ApplyPatchError>(
            (p + n, out),
        ));
        lemma_run_tail_given(given, p + n, direction, out);
    }
}

/// The steps of a tail of the rebuilt sequence leave the cursor where it
/// is and write the tail.
proof fn lemma_run_tail_rebuilt(
    rebuilt: Seq<u8>,
    p: int,
    direction: Direction,
    given: Seq<u8>,
    pos: int,
)
    requires
        0 <= p <= rebuilt.len(),
        0 <= pos <= given.len(),
    ensures
        run(tail_ops(rebuilt, p, direction is Reverse), direction, given, pos, rebuilt.take(p))
            == Ok::<(int, Seq<u8>), ApplyPatchError>((pos, rebuilt)),
    decreases rebuilt.len() - p,
{
    let removing = direction is Reverse;
    let out = rebuilt.take(p);
    if p < rebuilt.len() {
        let n = if rebuilt.len() - p > 255 {
            255
        } else {
            rebuilt.len() - p
        };
        let piece = rebuilt.subrange(p, p + n);
        let op = if removing {
            Op::Remove(piece)
        } else {
            Op::Add(piece)
        };
        lemma_run_concat(seq![op], tail_ops(rebuilt, p + n, removing), direction, given, pos, out);
        lemma_run_one(op, direction, given, pos, out);
        assert(given.subrange(pos, pos) =~= Seq::<u8>::empty());
        assert(out + piece =~= rebuilt.take(p + n));
        assert(step(op, direction, given, pos, out) == Ok::<(int, Seq<u8>), ApplyPatchError>(
            (pos, rebuilt.take(p + n)),
        ));
        lemma_run_tail_rebuilt(rebuilt, p + n, direction, given, pos);
    } else {
        assert(rebuilt.take(p) =~= rebuilt);
    }
}

/// What the pass emits from `p` on takes the application from `p` to the
/// end: the cursor to the end of the given sequence, the output to the
/// whole of the rebuilt one.
proof fn lemma_run_raw(source: Seq<u8>, target: Seq<u8>, p: int, direction: Direction)
    requires
        0 <= p <= shared_len(source, target),
    ensures
        run(
            raw_ops(source, target, p),
            direction,
            given_side(source, target, direction),
            p,
            rebuilt_side(source, target, direction).take(p),
        ) == Ok::<(int, Seq<u8>), ApplyPatchError>(
            (
                given_side(source, target, direction).len() as int,
                rebuilt_side(source, target, direction),
            ),
        ),
    decreases shared_len(source, target) - p,
{
    let end = shared_len(source, target);
    let given = given_side(source, target, direction);
    let rebuilt = rebuilt_side(source, target, direction);
    let out = rebuilt.take(p);
    if p < end {
        lemma_run_stays_inside(source, target, p, source[p] == target[p]);
        if source[p] == target[p] {
            let length = run_len(source, target, p, true);
            let n = if length > 255 {
                255
            } else {
                length as int
            };
            lemma_run_is_uniform(source, target, p, true);
            assert(source.subrange(p, p + n) =~= target.subrange(p, p + n));
            assert(out + rebuilt.subrange(p, p + n) =~= rebuilt.take(p + n));
            lemma_run_one(Op::Copy(n as nat), direction, given, p, out);
            lemma_run_concat(
                seq![Op::Copy(n as nat)],
                raw_ops(source, target, p + n),
                direction,
                given,
                p,
                out,
            );
            lemma_run_raw(source, target, p + n, direction);
        } else {
            let n = run_len(source, target, p, false);
            lemma_run_diff(source, target, p, n, direction);
            lemma_run_concat(
                diff_ops(source, target, p, n),
                raw_ops(source, target, p + n),
                direction,
                given,
                p,
                out,
            );
            lemma_run_raw(source, target, p + n, direction);
        }
    } else {
        let removes = tail_ops(source, end, true);
        let adds = tail_ops(target, end, false);
        lemma_run_concat(removes, adds, direction, given, p, out);
        match direction {
            Direction::Forward => {
                lemma_run_tail_given(source, end, direction, out);
                lemma_run_tail_rebuilt(target, end, direction, source, source.len() as int);
            },
            Direction::Reverse => {
                lemma_run_tail_rebuilt(source, end, direction, target, end);
                lemma_run_tail_given(target, end, direction, source);
            },
        }
    }
}

/// The encoded list stands for what the pass emitted.
proof fn lemma_encode_stands_for(
    source: Seq<u8>,
    target: Seq<u8>,
    format: Format,
    dedup_copies: bool,
)
    ensures
        stands_for(
            encode_ops(source, target, format, dedup_copies),
            raw_ops(source, target, 0),
            format,
        ),
{
    let raw = raw_ops(source, target, 0);
    lemma_raw_ops_shape(source, target, 0);
    lemma_append_stands_for(Seq::empty(), Seq::empty(), raw, format, dedup_copies);
    assert(Seq::<Op>::empty() + raw =~= raw);
}

/// The patch of `source` and `target` makes `target` of `source` when
/// applied forward, and `source` of `target` when applied in reverse, in
/// either format and whether or not copies are stored as references.
pub proof fn encode_then_apply(
    source: Seq<u8>,
    target: Seq<u8>,
    format: Format,
    dedup_copies: bool,
)
    ensures
        apply(encode_ops(source, target, format, dedup_copies), format, Direction::Forward, source)
            == Ok::<Seq<u8>, ApplyPatchError>(target),
        apply(encode_ops(source, target, format, dedup_copies), format, Direction::Reverse, target)
            == Ok::<Seq<u8>, ApplyPatchError>(source),
{
    let list = encode_ops(source, target, format, dedup_copies);
    let raw = raw_ops(source, target, 0);
    lemma_encode_stands_for(source, target, format, dedup_copies);
    assert(raw.skip(0) =~= raw);
    assert(target.take(0) =~= Seq::<u8>::empty());
    assert(source.take(0) =~= Seq::<u8>::empty());
    lemma_apply_is_run(list, raw, format, Direction::Forward, source, 0, 0, Seq::empty());
    lemma_run_raw(source, target, 0, Direction::Forward);
    lemma_apply_is_run(list, raw, format, Direction::Reverse, target, 0, 0, Seq::empty());
    lemma_run_raw(source, target, 0, Direction::Reverse);
}

/// No step of an encoded patch holds more than 255 bytes or counts more
/// than 255, and every index fits its frame, whatever the lengths of source
/// and target.
pub proof fn encode_fits_frames(
    source: Seq<u8>,
    target: Seq<u8>,
    format: Format,
    dedup_copies: bool,
)
    ensures
        all_fit(encode_ops(source, target, format, dedup_copies), format),
{
    lemma_raw_ops_shape(source, target, 0);
    lemma_append_fits(Seq::empty(), raw_ops(source, target, 0), format, dedup_copies);
}

/// Every reference of an encoded patch names a strictly earlier position,
/// and the step there is no reference.
pub proof fn encode_references_resolve(
    source: Seq<u8>,
    target: Seq<u8>,
    format: Format,
    dedup_copies: bool,
    i: int,
)
    requires
        0 <= i < encode_ops(source, target, format, dedup_copies).len(),
    ensures
        encode_ops(source, target, format, dedup_copies)[i] matches Op::Reference(index) ==> {
            let at = format.base(i) + index;
            &&& 0 <= at < i
            &&& !(encode_ops(source, target, format, dedup_copies)[at] is Reference)
        },
{
    let list = encode_ops(source, target, format, dedup_copies);
    lemma_encode_stands_for(source, target, format, dedup_copies);
    assert(resolve(list, i, format) is Some);
}

/// The frames of a concatenation are the frames of its parts, concatenated.
pub proof fn lemma_frames_concat(first: Seq<Op>, second: Seq<Op>, format: Format)
    ensures
        frames(first + second, format) == frames(first, format) + frames(second, format),
    decreases second.len(),
{
    if second.len() == 0 {
        assert(first + second =~= first);
        assert(frames(first, format) + Seq::<u8>::empty() =~= frames(first, format));
    } else {
        let all = first + second;
        assert(all.drop_last() =~= first + second.drop_last());
        assert(all.last() == second.last());
        lemma_frames_concat(first, second.drop_last(), format);
        assert(frames(first, format) + frames(second.drop_last(), format) + frame(
            second.last(),
            format,
        ) =~= frames(first, format) + (frames(second.drop_last(), format) + frame(
            second.last(),
            format,
        )));
    }
}

/// The wide frame of a step that fits, with anything behind it, is read
/// back as that step.
proof fn lemma_parse_frame(op: Op, rest: Seq<u8>)
    requires
        op.fits(Format::Wide),
    ensures
        frame(op, Format::Wide).len() >= 2,
        parse_one(frame(op, Format::Wide) + rest) == Ok::<(Op, int), DecodeError>(
            (op, frame(op, Format::Wide).len() as int),
        ),
{
    let bytes = frame(op, Format::Wide) + rest;
    match op {
        Op::Add(chunk) => {
            assert(bytes[0] == crate::model::wire::ADD_SIGN);
            assert(bytes[1] == chunk.len());
            assert(bytes.subrange(2, 2 + chunk.len() as int) =~= chunk);
        },
        Op::Remove(chunk) => {
            assert(bytes[0] == crate::model::wire::REMOVE_SIGN);
            assert(bytes[1] == chunk.len());
            assert(bytes.subrange(2, 2 + chunk.len() as int) =~= chunk);
        },
        Op::Copy(length) => {
            assert(bytes[0] == crate::model::wire::COPY_SIGN);
            assert(bytes[1] == length);
        },
        Op::Reference(index) => {
            assert(bytes[0] == crate::model::wire::REFERENCE_SIGN);
            assert(bytes[1] == index / 256);
            assert(bytes[2] == index % 256);
        },
    }
}

/// The wire form of a list whose steps fit their frames is read back as
/// that list.
pub proof fn frames_parse_back(list: Seq<Op>)
    requires
        all_fit(list, Format::Wide),
    ensures
        parse_all(frames(list, Format::Wide)) == Ok::<Seq<Op>, DecodeError>(list),
    decreases list.len(),
{
    if list.len() == 0 {
        assert(list =~= Seq::<Op>::empty());
    } else {
        let head = list[0];
        let tail = list.drop_first();
        assert(list =~= seq![head] + tail);
        lemma_frames_concat(seq![head], tail, Format::Wide);
        assert(seq![head].drop_last() =~= Seq::<Op>::empty());
        assert(frames(seq![head], Format::Wide) =~= frame(head, Format::Wide)) by {
            reveal_with_fuel(frames, 2);
        }
        let bytes = frames(list, Format::Wide);
        assert(head.fits(Format::Wide));
        lemma_parse_frame(head, frames(tail, Format::Wide));
        let used = frame(head, Format::Wide).len() as int;
        assert(bytes.skip(used) =~= frames(tail, Format::Wide));
        assert forall|i: int| 0 <= i < tail.len() implies (#[trigger] tail[i]).fits(
            Format::Wide,
        ) by {
            assert(list[i + 1].fits(Format::Wide));
        }
        frames_parse_back(tail);
        assert(bytes == frame(head, Format::Wide) + frames(tail, Format::Wide));
        assert(bytes.len() > 0);
        assert(parse_one(bytes) == Ok::<(Op, int), DecodeError>((head, used)));
        assert(parse_all(bytes.skip(used)) == Ok::<Seq<Op>, DecodeError>(tail));
    }
}

/// The wire form of an encoded patch is read back as that patch.
pub proof fn encode_frames_parse_back(source: Seq<u8>, target: Seq<u8>, dedup_copies: bool)
    ensures
        parse_all(frames(encode_ops(source, target, Format::Wide, dedup_copies), Format::Wide))
            == Ok::<Seq<Op>, DecodeError>(encode_ops(source, target, Format::Wide, dedup_copies)),
{
    encode_fits_frames(source, target, Format::Wide, dedup_copies);
    frames_parse_back(encode_ops(source, target, Format::Wide, dedup_copies));
}

/// Reading a whole input never fails for want of a tag: where the input
/// ends between frames, the list is complete.
pub proof fn parse_all_finds_its_tags(bytes: Seq<u8>)
    ensures
        parse_all(bytes) != Err::<Seq<Op>, DecodeError>(DecodeError::MissingTag),
    decreases bytes.len(),
{
    if bytes.len() > 0 {
        match parse_one(bytes) {
            Ok((_, used)) => {
                parse_all_finds_its_tags(bytes.skip(used));
            },
            Err(_) => {},
        }
    }
}

/// Copies that count `n` bytes between them: each 255 but the last, which
/// counts what is left. None for no bytes.
pub open spec fn copy_chunks(n: nat) -> Seq<Op>
    decreases n,
{
    if n == 0 {
        Seq::empty()
    } else if n > 255 {
        seq![Op::Copy(255)] + copy_chunks((n - 255) as nat)
    } else {
        seq![Op::Copy(n)]
    }
}

/// A sequence agrees with itself from any position to its end.
proof fn lemma_run_of_same(bytes: Seq<u8>, p: int)
    requires
        0 <= p <= bytes.len(),
    ensures
        run_len(bytes, bytes, p, true) == bytes.len() - p,
    decreases bytes.len() - p,
{
    if p < bytes.len() {
        lemma_run_of_same(bytes, p + 1);
    }
}

/// What the pass emits for a sequence and itself is the copies that count
/// its bytes.
proof fn lemma_raw_of_same(bytes: Seq<u8>, p: int)
    requires
        0 <= p <= bytes.len(),
    ensures
        raw_ops(bytes, bytes, p) == copy_chunks((bytes.len() - p) as nat),
    decreases bytes.len() - p,
{
    lemma_run_of_same(bytes, p);
    if p < bytes.len() {
        let left = bytes.len() - p;
        let n = if left > 255 {
            255
        } else {
            left
        };
        lemma_raw_of_same(bytes, p + n);
        assert(seq![Op::Copy(n as nat)] + Seq::<Op>::empty() =~= seq![Op::Copy(n as nat)]);
    } else {
        assert(raw_ops(bytes, bytes, p) =~= Seq::<Op>::empty());
    }
}

/// Every step of `copy_chunks` is a copy.
proof fn lemma_copy_chunks_are_copies(n: nat)
    ensures
        forall|i: int| 0 <= i < copy_chunks(n).len() ==> (#[trigger] copy_chunks(n)[i]) is Copy,
    decreases n,
{
    if n > 255 {
        lemma_copy_chunks_are_copies((n - 255) as nat);
    }
}

/// Where copies are stored as they are, appending copies is concatenation.
proof fn lemma_append_copies(list: Seq<Op>, ops: Seq<Op>, format: Format)
    requires
        forall|i: int| 0 <= i < ops.len() ==> (#[trigger] ops[i]) is Copy,
    ensures
        append_all(list, ops, format, false) == list + ops,
    decreases ops.len(),
{
    if ops.len() == 0 {
        assert(list + ops =~= list);
    } else {
        assert(ops[0] is Copy);
        assert forall|i: int| 0 <= i < ops.drop_first().len() implies (
        #[trigger] ops.drop_first()[i]) is Copy by {
            assert(ops[i + 1] is Copy);
        }
        lemma_append_copies(list.push(ops[0]), ops.drop_first(), format);
        assert(list.push(ops[0]) + ops.drop_first() =~= list + ops);
    }
}

/// With copies stored as they are, the patch of a sequence and itself is
/// copies and nothing else, each of 255 bytes but the last. For a sequence
/// of 1 to 255 bytes it is the one copy of its length; for the empty
/// sequence it is empty.
pub proof fn encode_same_is_copies(bytes: Seq<u8>, format: Format)
    ensures
        encode_ops(bytes, bytes, format, false) == copy_chunks(bytes.len()),
        0 < bytes.len() <= 255 ==> encode_ops(bytes, bytes, format, false) == seq![
            Op::Copy(bytes.len()),
        ],
        bytes.len() == 0 ==> encode_ops(bytes, bytes, format, false) == Seq::<Op>::empty(),
        forall|i: int|
            0 <= i < encode_ops(bytes, bytes, format, false).len() ==> (#[trigger] encode_ops(
                bytes,
                bytes,
                format,
                false,
            )[i]) is Copy,
{
    lemma_raw_of_same(bytes, 0);
    lemma_copy_chunks_are_copies(bytes.len());
    lemma_append_copies(Seq::empty(), copy_chunks(bytes.len()), format);
    assert(Seq::<Op>::empty() + copy_chunks(bytes.len()) =~= copy_chunks(bytes.len()));
}

/// The patch of a sequence and itself holds no add and no remove, also
/// where copies are stored as references.
pub proof fn encode_same_adds_nothing(bytes: Seq<u8>, format: Format, dedup_copies: bool, i: int)
    requires
        0 <= i < encode_ops(bytes, bytes, format, dedup_copies).len(),
    ensures
        !(encode_ops(bytes, bytes, format, dedup_copies)[i] is Add),
        !(encode_ops(bytes, bytes, format, dedup_copies)[i] is Remove),
{
    let list = encode_ops(bytes, bytes, format, dedup_copies);
    lemma_encode_stands_for(bytes, bytes, format, dedup_copies);
    lemma_raw_of_same(bytes, 0);
    lemma_copy_chunks_are_copies(bytes.len());
    assert(resolve(list, i, format) == Some(raw_ops(bytes, bytes, 0)[i]));
    assert(copy_chunks(bytes.len())[i] is Copy);
}

} // verus!
