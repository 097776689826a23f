//! What a patch does to a byte sequence.

use vstd::prelude::*;
use crate::delta_patch::ApplyPatchError;
use crate::model::op::{Op, Format};

verus! {

/// Which of the two sequences is given and which is rebuilt.
pub enum Direction {
    /// The source is given, the target is rebuilt.
    Forward,
    /// The target is given, the source is rebuilt.
    Reverse,
}

impl Direction {
    /// The error for a step that does not agree with the given sequence.
    pub open spec fn mismatch(self) -> ApplyPatchError {
        match self {
            Direction::Forward => ApplyPatchError::SourceMismatch,
            Direction::Reverse => ApplyPatchError::TargetMismatch,
        }
    }
}

/// The step that position `i` of `list` stands for: the step itself, or for
/// a reference the step it names. `None` for a reference that names no
/// strictly earlier step or names another reference.
pub open spec fn resolve(list: Seq<Op>, i: int, format: Format) -> Option<Op> {
    match list[i] {
        Op::Reference(index) => {
            let at = format.base(i) + index;
            if 0 <= at < i && !(list[at] is Reference) {
                Some(list[at])
            } else {
                None
            }
        },
        op => Some(op),
    }
}

/// The bytes that `op` expects in the given sequence at its cursor, and the
/// bytes that it writes, in that order; `None` for a copy, which takes its
/// bytes from the given sequence, and for a reference.
pub open spec fn payload(op: Op, direction: Direction) -> Option<(Seq<u8>, Seq<u8>)> {
    match (op, direction) {
        (Op::Remove(bytes), Direction::Forward) => Some((bytes, Seq::empty())),
        (Op::Add(bytes), Direction::Forward) => Some((Seq::empty(), bytes)),
        (Op::Remove(bytes), Direction::Reverse) => Some((Seq::empty(), bytes)),
        (Op::Add(bytes), Direction::Reverse) => Some((bytes, Seq::empty())),
        _ => None,
    }
}

/// One resolved step: the cursor in `given` and the output after it, or the
/// error that stops the application.
///
/// A copy moves `length` bytes from the cursor to the output. The step that
/// speaks of the given sequence must find its bytes at the cursor and skips
/// them. The step that speaks of the other sequence writes its bytes.
pub open spec fn step(
    op: Op,
    direction: Direction,
    given: Seq<u8>,
    pos: int,
    out: Seq<u8>,
) -> Result<(int, Seq<u8>), ApplyPatchError> {
    match op {
        Op::Copy(length) => if pos + length <= given.len() {
            Ok((pos + length, out + given.subrange(pos, pos + length)))
        } else {
            Err(direction.mismatch())
        },
        Op::Reference(_) => Err(ApplyPatchError::DanglingReference),
        _ => {
            let (expected, written) = payload(op, direction).unwrap();
            if pos + expected.len() <= given.len() && given.subrange(pos, pos + expected.len())
                == expected {
                Ok((pos + expected.len(), out + written))
            } else {
                Err(direction.mismatch())
            }
        },
    }
}

/// The application of the steps of `list` from position `i` on, with the
/// cursor at `pos` and `out` written so far.
pub open spec fn apply_from(
    list: Seq<Op>,
    format: Format,
    direction: Direction,
    given: Seq<u8>,
    i: int,
    pos: int,
    out: Seq<u8>,
) -> Result<Seq<u8>, ApplyPatchError>
    decreases list.len() - i,
{
    if i < 0 || i >= list.len() {
        Ok(out)
    } else {
        match resolve(list, i, format) {
            None => Err(ApplyPatchError::DanglingReference),
            Some(op) => match step(op, direction, given, pos, out) {
                Ok((next_pos, next_out)) => apply_from(
                    list,
                    format,
                    direction,
                    given,
                    i + 1,
                    next_pos,
                    next_out,
                ),
                Err(e) => Err(e),
            },
        }
    }
}

/// The application of steps that need no resolving, one after the other:
/// the cursor and the output behind the last one, or the first error.
pub open spec fn run(
    ops: Seq<Op>,
    direction: Direction,
    given: Seq<u8>,
    pos: int,
    out: Seq<u8>,
) -> Result<(int, Seq<u8>), ApplyPatchError>
    decreases ops.len(),
{
    if ops.len() == 0 {
        Ok((pos, out))
    } else {
        match step(ops[0], direction, given, pos, out) {
            Ok((next_pos, next_out)) => run(ops.drop_first(), direction, given, next_pos, next_out),
            Err(e) => Err(e),
        }
    }
}

/// Running two lists one after the other is running their concatenation.
pub proof fn lemma_run_concat(
    first: Seq<Op>,
    second: Seq<Op>,
    direction: Direction,
    given: Seq<u8>,
    pos: int,
    out: Seq<u8>,
)
    ensures
        run(first + second, direction, given, pos, out) == match run(
            first,
            direction,
            given,
            pos,
            out,
        ) {
            Ok((next_pos, next_out)) => run(second, direction, given, next_pos, next_out),
            Err(e) => Err(e),
        },
    decreases first.len(),
{
    if first.len() == 0 {
        assert(first + second =~= second);
    } else {
        let all = first + second;
        assert(all[0] == first[0]);
        assert(all.drop_first() =~= first.drop_first() + second);
        match step(first[0], direction, given, pos, out) {
            Ok((next_pos, next_out)) => {
                lemma_run_concat(first.drop_first(), second, direction, given, next_pos, next_out);
            },
            Err(_) => {},
        }
    }
}

/// Applying a list from position `i` on is running the steps that its
/// positions from `i` on resolve to.
pub proof fn lemma_apply_is_run(
    list: Seq<Op>,
    raw: Seq<Op>,
    format: Format,
    direction: Direction,
    given: Seq<u8>,
    i: int,
    pos: int,
    out: Seq<u8>,
)
    requires
        0 <= i <= list.len(),
        list.len() == raw.len(),
        forall|k: int| i <= k < list.len() ==> #[trigger] resolve(list, k, format) == Some(raw[k]),
    ensures
        apply_from(list, format, direction, given, i, pos, out) == match run(
            raw.skip(i),
            direction,
            given,
            pos,
            out,
        ) {
            Ok((_, rebuilt)) => Ok::<Seq<u8>, ApplyPatchError>(rebuilt),
            Err(e) => Err(e),
        },
    decreases list.len() - i,
{
    if i < list.len() {
        let rest = raw.skip(i);
        assert(rest[0] == raw[i]);
        assert(rest.drop_first() =~= raw.skip(i + 1));
        assert(resolve(list, i, format) == Some(raw[i]));
        match step(raw[i], direction, given, pos, out) {
            Ok((next_pos, next_out)) => {
                lemma_apply_is_run(list, raw, format, direction, given, i + 1, next_pos, next_out);
            },
            Err(_) => {},
        }
    }
}

/// The sequence that `list` rebuilds from `given`, or the first error on the
/// way.
pub open spec fn apply(
    list: Seq<Op>,
    format: Format,
    direction: Direction,
    given: Seq<u8>,
) -> Result<Seq<u8>, ApplyPatchError> {
    apply_from(list, format, direction, given, 0, 0, Seq::empty())
}

} // verus!
