//! Patches in the compact format, and their application.

use vstd::prelude::*;
use crate::bytes::holds_at;
use crate::commands::add_command::AddCommand;
use crate::commands::command_util::{
    push_command_with, steps_of, Command, REFERENCE_COPY_COMMANDS,
};
use crate::commands::commands_enum::PushToCommand;
use crate::commands::copy_command::CopyCommand;
use crate::commands::remove_command::RemoveCommand;
use crate::instructions::instruction::ToBytes;
use crate::model::apply::{apply, apply_from, resolve, Direction};
use crate::model::dedup::{append_all, encode_ops, lemma_append_concat, lemma_append_cons, stored};
use crate::model::greedy::{
    diff_ops, lemma_run_stays_inside, raw_ops, run_len, shared_len, tail_ops,
};
use crate::model::laws::{encode_fits_frames, encode_then_apply};
use crate::model::op::{all_fit, Format, Op, MAX_CHUNK};
use crate::model::wire::frames;

verus! {

/// Why a patch could not be applied.
#[derive(Debug, PartialEq, Eq, Structural, Clone, Copy)]
pub enum ApplyPatchError {
    /// A reference names no strictly earlier step, or names a reference.
    DanglingReference,
    /// A copy or remove does not agree with the source at its cursor.
    SourceMismatch,
    /// A copy or add does not agree with the target at its cursor.
    TargetMismatch,
}

/// An ordered list of commands that turns one byte sequence into another.
#[derive(Debug)]
pub struct Patch {
    commands: Vec<Command>,
}

impl View for Patch {
    type V = Seq<Op>;

    closed spec fn view(&self) -> Seq<Op> {
        steps_of(self.commands@)
    }
}

/// Scans the run of agreeing bytes that starts at `p`, up to 255 of them.
fn scan_copy(source: &[u8], target: &[u8], p: usize) -> (copy: CopyCommand)
    requires
        p < shared_len(source@, target@),
        source@[p as int] == target@[p as int],
    ensures
        copy@ == if run_len(source@, target@, p as int, true) > 255 {
            255
        } else {
            run_len(source@, target@, p as int, true)
        },
        1 <= copy@ <= shared_len(source@, target@) - p,
{
    let shared = if source.len() <= target.len() {
        source.len()
    } else {
        target.len()
    };
    let mut copy = CopyCommand::default();
    let mut q: usize = p;
    while q < shared && source[q] == target[q] && copy.length() < 255
        invariant
            p <= q <= shared,
            shared == shared_len(source@, target@),
            copy@ == q - p,
            copy@ <= 255,
            run_len(source@, target@, p as int, true) == (q - p) + run_len(
                source@,
                target@,
                q as int,
                true,
            ),
        decreases shared - q,
    {
        let _ = copy.push(source[q]);
        q = q + 1;
    }
    proof {
        lemma_run_stays_inside(source@, target@, p as int, true);
    }
    copy
}

/// Emits the steps of the run of differing bytes that starts at `p`, and
/// returns the position behind the run.
fn emit_diff(
    commands: &mut Vec<Command>,
    source: &[u8],
    target: &[u8],
    p: usize,
    dedup_copies: bool,
) -> (end: usize)
    requires
        p < shared_len(source@, target@),
        source@[p as int] != target@[p as int],
    ensures
        end == p + run_len(source@, target@, p as int, false),
        p < end <= shared_len(source@, target@),
        steps_of(final(commands)@) == append_all(
            steps_of(old(commands)@),
            diff_ops(source@, target@, p as int, run_len(source@, target@, p as int, false)),
            Format::Compact,
            dedup_copies,
        ),
{
    let shared = if source.len() <= target.len() {
        source.len()
    } else {
        target.len()
    };
    let ghost end = p + run_len(source@, target@, p as int, false);
    let ghost goal = append_all(
        steps_of(commands@),
        diff_ops(source@, target@, p as int, run_len(source@, target@, p as int, false)),
        Format::Compact,
        dedup_copies,
    );
    let ghost mut chunk_start: int = p as int;
    let mut remove = RemoveCommand::default();
    let mut add = AddCommand::default();
    let mut q: usize = p;
    proof {
        lemma_run_stays_inside(source@, target@, p as int, false);
    }
    while q < shared && source[q] != target[q]
        invariant
            p <= chunk_start <= q <= end <= shared,
            shared == shared_len(source@, target@),
            end == q + run_len(source@, target@, q as int, false),
            q - chunk_start < 255,
            remove@ == source@.subrange(chunk_start, q as int),
            add@ == target@.subrange(chunk_start, q as int),
            goal == append_all(
                steps_of(commands@),
                diff_ops(source@, target@, chunk_start, (end - chunk_start) as nat),
                Format::Compact,
                dedup_copies,
            ),
        decreases shared - q,
    {
        let _ = remove.push(source[q]);
        let _ = add.push(target[q]);
        q = q + 1;
        assert(remove@ == source@.subrange(chunk_start, q as int));
        assert(add@ == target@.subrange(chunk_start, q as int));
        if remove.length() == 255 {
            let ghost before = steps_of(commands@);
            let ghost rest = diff_ops(source@, target@, q as int, (end - q) as nat);
            proof {
                lemma_append_cons(
                    before,
                    Op::Remove(remove@),
                    seq![Op::Add(add@)] + rest,
                    Format::Compact,
                    dedup_copies,
                );
                lemma_append_cons(
                    before.push(stored(before, Op::Remove(remove@), Format::Compact, dedup_copies)),
                    Op::Add(add@),
                    rest,
                    Format::Compact,
                    dedup_copies,
                );
                assert(diff_ops(source@, target@, chunk_start, (end - chunk_start) as nat)
                    =~= seq![Op::Remove(remove@)] + (seq![Op::Add(add@)] + rest));
            }
            push_command_with(commands, Command::Remove(remove), dedup_copies);
            push_command_with(commands, Command::Add(add), dedup_copies);
            remove = RemoveCommand::default();
            add = AddCommand::default();
            proof {
                chunk_start = q as int;
            }
        }
    }
    proof {
        let before = steps_of(commands@);
        assert(run_len(source@, target@, q as int, false) == 0);
        lemma_append_cons(
            before,
            Op::Remove(remove@),
            seq![Op::Add(add@)],
            Format::Compact,
            dedup_copies,
        );
        lemma_append_cons(
            before.push(stored(before, Op::Remove(remove@), Format::Compact, dedup_copies)),
            Op::Add(add@),
            Seq::empty(),
            Format::Compact,
            dedup_copies,
        );
        assert(seq![Op::Add(add@)] + Seq::<Op>::empty() =~= seq![Op::Add(add@)]);
        assert(diff_ops(source@, target@, chunk_start, (end - chunk_start) as nat) =~= seq![
            Op::Remove(remove@),
        ] + seq![Op::Add(add@)]);
    }
    push_command_with(commands, Command::Remove(remove), dedup_copies);
    push_command_with(commands, Command::Add(add), dedup_copies);
    q
}

/// Emits what `bytes` holds from `from` on, in pieces of at most 255 bytes:
/// as removes if `removing`, as adds otherwise.
fn emit_tail(
    commands: &mut Vec<Command>,
    bytes: &[u8],
    from: usize,
    removing: bool,
    dedup_copies: bool,
)
    ensures
        steps_of(final(commands)@) == append_all(
            steps_of(old(commands)@),
            tail_ops(bytes@, from as int, removing),
            Format::Compact,
            dedup_copies,
        ),
{
    let ghost goal = append_all(
        steps_of(commands@),
        tail_ops(bytes@, from as int, removing),
        Format::Compact,
        dedup_copies,
    );
    let mut q: usize = from;
    while q < bytes.len()
        invariant
            goal == append_all(
                steps_of(commands@),
                tail_ops(bytes@, q as int, removing),
                Format::Compact,
                dedup_copies,
            ),
        decreases bytes.len() - q,
    {
        let left = bytes.len() - q;
        let n = if left > MAX_CHUNK {
            MAX_CHUNK
        } else {
            left
        };
        let piece = vstd::slice::slice_subrange(bytes, q, q + n);
        let ghost before = steps_of(commands@);
        if removing {
            let mut remove = RemoveCommand::default();
            let _ = remove.push_chunk(piece);
            proof {
                lemma_append_cons(
                    before,
                    Op::Remove(remove@),
                    tail_ops(bytes@, q + n, removing),
                    Format::Compact,
                    dedup_copies,
                );
            }
            push_command_with(commands, Command::Remove(remove), dedup_copies);
        } else {
            let mut add = AddCommand::default();
            let _ = add.push_chunk(piece);
            proof {
                lemma_append_cons(
                    before,
                    Op::Add(add@),
                    tail_ops(bytes@, q + n, removing),
                    Format::Compact,
                    dedup_copies,
                );
            }
            push_command_with(commands, Command::Add(add), dedup_copies);
        }
        q = q + n;
    }
}

/// Rebuilds one sequence from the other: the target from the source in
/// forward direction, the source from the target in reverse.
fn rebuild(commands: &Vec<Command>, given: &[u8], direction: Direction) -> (r: Result<
    Vec<u8>,
    ApplyPatchError,
>)
    ensures
        match r {
            Ok(rebuilt) => apply(steps_of(commands@), Format::Compact, direction, given@) == Ok::<
                Seq<u8>,
                ApplyPatchError,
            >(rebuilt@),
            Err(e) => apply(steps_of(commands@), Format::Compact, direction, given@) == Err::<
                Seq<u8>,
                ApplyPatchError,
            >(e),
        },
{
    let ghost list = steps_of(commands@);
    let ghost goal = apply(list, Format::Compact, direction, given@);
    let mismatch = match direction {
        Direction::Forward => ApplyPatchError::SourceMismatch,
        Direction::Reverse => ApplyPatchError::TargetMismatch,
    };
    let mut out: Vec<u8> = Vec::new();
    let mut pos: usize = 0;
    let mut i: usize = 0;
    assert(given@.len() == given.len());
    while i < commands.len()
        invariant
            i <= commands@.len(),
            pos <= given@.len(),
            list == steps_of(commands@),
            mismatch == direction.mismatch(),
            given@.len() <= usize::MAX,
            goal == apply(list, Format::Compact, direction, given@),
            goal == apply_from(
                list,
                Format::Compact,
                direction,
                given@,
                i as int,
                pos as int,
                out@,
            ),
        decreases commands.len() - i,
    {
        let resolved: &Command = match &commands[i] {
            Command::Reference(reference) => {
                let at = i - i % 255 + reference.index() as usize;
                if at >= i {
                    return Err(ApplyPatchError::DanglingReference);
                }
                if matches!(commands[at], Command::Reference(_)) {
                    return Err(ApplyPatchError::DanglingReference);
                }
                &commands[at]
            },
            _ => &commands[i],
        };
        assert(resolve(list, i as int, Format::Compact) == Some(resolved@));
        let ghost before = out@;
        match resolved {
            Command::Copy(copy) => {
                let n = copy.length() as usize;
                if n > given.len() - pos {
                    return Err(mismatch);
                }
                out.extend_from_slice(vstd::slice::slice_subrange(given, pos, pos + n));
                assert(out@ =~= before + given@.subrange(pos as int, pos + n));
                pos = pos + n;
            },
            Command::Add(add) => {
                match direction {
                    Direction::Forward => {
                        out.extend_from_slice(add.bytes());
                        assert(out@ =~= before + add@);
                        assert(given@.subrange(pos as int, pos as int) =~= Seq::<u8>::empty());
                    },
                    Direction::Reverse => {
                        if !holds_at(given, pos, add.bytes()) {
                            return Err(mismatch);
                        }
                        pos = pos + add.bytes().len();
                        assert(out@ =~= before + Seq::<u8>::empty());
                    },
                }
            },
            Command::Remove(remove) => {
                match direction {
                    Direction::Forward => {
                        if !holds_at(given, pos, remove.bytes()) {
                            return Err(mismatch);
                        }
                        pos = pos + remove.bytes().len();
                        assert(out@ =~= before + Seq::<u8>::empty());
                    },
                    Direction::Reverse => {
                        out.extend_from_slice(remove.bytes());
                        assert(out@ =~= before + remove@);
                        assert(given@.subrange(pos as int, pos as int) =~= Seq::<u8>::empty());
                    },
                }
            },
            Command::Reference(_) => {
                return Err(ApplyPatchError::DanglingReference);
            },
        }
        i = i + 1;
    }
    Ok(out)
}

impl Patch {
    /// The patch that turns `source_bytes` into `target_bytes`, with
    /// repeated adds and removes stored as references, and repeated copies
    /// as `REFERENCE_COPY_COMMANDS` says.
    ///
    /// Applied to the source it gives the target, applied in reverse to the
    /// target it gives the source, and each of its commands fits its frame.
    pub fn encode(source_bytes: &[u8], target_bytes: &[u8]) -> (patch: Self)
        ensures
            patch@ == encode_ops(
                source_bytes@,
                target_bytes@,
                Format::Compact,
                REFERENCE_COPY_COMMANDS,
            ),
            apply(patch@, Format::Compact, Direction::Forward, source_bytes@) == Ok::<
                Seq<u8>,
                ApplyPatchError,
            >(target_bytes@),
            apply(patch@, Format::Compact, Direction::Reverse, target_bytes@) == Ok::<
                Seq<u8>,
                ApplyPatchError,
            >(source_bytes@),
            all_fit(patch@, Format::Compact),
    {
        Self::encode_with(source_bytes, target_bytes, REFERENCE_COPY_COMMANDS)
    }

    /// The patch that turns `source_bytes` into `target_bytes`. With
    /// `dedup_copies`, a repeated copy is stored as a reference too.
    ///
    /// Either way the patch applied to the source gives the target, applied
    /// in reverse to the target it gives the source, and each of its
    /// commands fits its frame.
    pub fn encode_with(source_bytes: &[u8], target_bytes: &[u8], dedup_copies: bool) -> (patch:
        Self)
        ensures
            patch@ == encode_ops(source_bytes@, target_bytes@, Format::Compact, dedup_copies),
            apply(patch@, Format::Compact, Direction::Forward, source_bytes@) == Ok::<
                Seq<u8>,
                ApplyPatchError,
            >(target_bytes@),
            apply(patch@, Format::Compact, Direction::Reverse, target_bytes@) == Ok::<
                Seq<u8>,
                ApplyPatchError,
            >(source_bytes@),
            all_fit(patch@, Format::Compact),
    {
        proof {
            encode_then_apply(source_bytes@, target_bytes@, Format::Compact, dedup_copies);
            encode_fits_frames(source_bytes@, target_bytes@, Format::Compact, dedup_copies);
        }
        let shared = if source_bytes.len() <= target_bytes.len() {
            source_bytes.len()
        } else {
            target_bytes.len()
        };
        let ghost goal = encode_ops(source_bytes@, target_bytes@, Format::Compact, dedup_copies);
        let mut commands: Vec<Command> = Vec::new();
        let mut p: usize = 0;
        assert(steps_of(commands@) =~= Seq::<Op>::empty());
        while p < shared
            invariant
                p <= shared,
                shared == shared_len(source_bytes@, target_bytes@),
                goal == append_all(
                    steps_of(commands@),
                    raw_ops(source_bytes@, target_bytes@, p as int),
                    Format::Compact,
                    dedup_copies,
                ),
            decreases shared - p,
        {
            let ghost before = steps_of(commands@);
            if source_bytes[p] == target_bytes[p] {
                let copy = scan_copy(source_bytes, target_bytes, p);
                let n = copy.length();
                proof {
                    lemma_append_cons(
                        before,
                        Op::Copy(copy@),
                        raw_ops(source_bytes@, target_bytes@, p + n),
                        Format::Compact,
                        dedup_copies,
                    );
                }
                push_command_with(&mut commands, Command::Copy(copy), dedup_copies);
                p = p + n as usize;
            } else {
                let ghost run = run_len(source_bytes@, target_bytes@, p as int, false);
                proof {
                    lemma_append_concat(
                        before,
                        diff_ops(source_bytes@, target_bytes@, p as int, run),
                        raw_ops(source_bytes@, target_bytes@, p + run),
                        Format::Compact,
                        dedup_copies,
                    );
                }
                p = emit_diff(&mut commands, source_bytes, target_bytes, p, dedup_copies);
            }
        }
        proof {
            lemma_append_concat(
                steps_of(commands@),
                tail_ops(source_bytes@, shared as int, true),
                tail_ops(target_bytes@, shared as int, false),
                Format::Compact,
                dedup_copies,
            );
        }
        emit_tail(&mut commands, source_bytes, shared, true, dedup_copies);
        emit_tail(&mut commands, target_bytes, shared, false, dedup_copies);
        Self::new(commands)
    }

    fn new(commands: Vec<Command>) -> (patch: Self)
        ensures
            patch@ == steps_of(commands@),
    {
        Self { commands }
    }

    /// The commands, in the order in which they apply.
    pub fn commands(&self) -> (commands: &Vec<Command>)
        ensures
            steps_of(commands@) == self@,
    {
        &self.commands
    }
}

impl ToBytes for Patch {
    open spec fn wire(&self) -> Seq<u8> {
        frames(self@, Format::Compact)
    }

    /// The frames of all commands, in order, with nothing around them.
    fn to_bytes(&self) -> (bytes: Vec<u8>) {
        let ghost list = steps_of(self.commands@);
        let mut bytes: Vec<u8> = Vec::new();
        let mut i: usize = 0;
        assert(list.take(0) =~= Seq::<Op>::empty());
        while i < self.commands.len()
            invariant
                i <= self.commands@.len(),
                list == steps_of(self.commands@),
                bytes@ == frames(list.take(i as int), Format::Compact),
            decreases self.commands.len() - i,
        {
            let ghost before = bytes@;
            let one = self.commands[i].to_bytes();
            bytes.extend_from_slice(one.as_slice());
            proof {
                assert(bytes@ =~= before + one@);
                assert(list.take(i + 1).drop_last() =~= list.take(i as int));
                assert(list.take(i + 1).last() == list[i as int]);
            }
            i = i + 1;
        }
        assert(list.take(i as int) =~= list);
        bytes
    }
}

/// Byte sequences that a patch turns into one another.
pub trait ApplyPatch: Sized {
    /// The bytes of the sequence.
    spec fn content(&self) -> Seq<u8>;

    /// The target that `patch` makes of this source.
    ///
    /// Fails where a reference names no earlier command that is not itself
    /// a reference, and where a copy or remove does not find its bytes in
    /// the source.
    fn to_target(&self, patch: &Patch) -> (r: Result<Self, ApplyPatchError>)
        ensures
            match r {
                Ok(target) => apply(patch@, Format::Compact, Direction::Forward, self.content())
                    == Ok::<Seq<u8>, ApplyPatchError>(target.content()),
                Err(e) => apply(patch@, Format::Compact, Direction::Forward, self.content())
                    == Err::<Seq<u8>, ApplyPatchError>(e),
            },
    ;

    /// The source of which `patch` makes this target.
    ///
    /// Fails where a reference names no earlier command that is not itself
    /// a reference, and where a copy or add does not find its bytes in the
    /// target.
    fn to_source(&self, patch: &Patch) -> (r: Result<Self, ApplyPatchError>)
        ensures
            match r {
                Ok(source) => apply(patch@, Format::Compact, Direction::Reverse, self.content())
                    == Ok::<Seq<u8>, ApplyPatchError>(source.content()),
                Err(e) => apply(patch@, Format::Compact, Direction::Reverse, self.content())
                    == Err::<Seq<u8>, ApplyPatchError>(e),
            },
    ;
}

impl ApplyPatch for Vec<u8> {
    open spec fn content(&self) -> Seq<u8> {
        self@
    }

    fn to_target(&self, patch: &Patch) -> (r: Result<Self, ApplyPatchError>) {
        rebuild(&patch.commands, self.as_slice(), Direction::Forward)
    }

    fn to_source(&self, patch: &Patch) -> (r: Result<Self, ApplyPatchError>) {
        rebuild(&patch.commands, self.as_slice(), Direction::Reverse)
    }
}

} // verus!
