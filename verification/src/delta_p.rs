//! Patches in the wide format: encoding, framing and application.

use vstd::prelude::*;
use crate::bytes::holds_at;
use crate::cursor::ByteCursor;
use crate::delta_patch::ApplyPatchError;
use crate::instructions::add::Add;
use crate::instructions::instruction::{
    lemma_ops_of_push, ops_of, ByteChunk, ChunkLength, Instruction, PushByte, ToBytes,
};
use crate::instructions::remove::Remove;
use crate::model::apply::{apply, apply_from, resolve, Direction};
use crate::model::dedup::{append_all, encode_ops, lemma_append_concat, lemma_append_cons, stored};
use crate::model::greedy::{
    diff_ops, lemma_run_stays_inside, raw_ops, run_len, shared_len, tail_ops,
};
use crate::model::laws::{
    encode_fits_frames, encode_frames_parse_back, encode_then_apply, parse_all_finds_its_tags,
};
use crate::model::op::{all_fit, Format, Op, MAX_CHUNK};
use crate::model::wire::{frame, frames, parse_all, parse_one};

verus! {

/// Why a byte sequence is not the wire form of a patch.
#[derive(Debug, PartialEq, Eq, Structural, Clone, Copy)]
pub enum DecodeError {
    /// The input ended where a tag was expected.
    MissingTag,
    /// The input ended behind the tag of an add, remove or copy frame.
    MissingLength,
    /// The input ended inside the bytes of an add or remove frame.
    MissingPayload,
    /// The input ended inside the index of a reference frame.
    MissingReferenceIndex,
    /// The byte at the place of a tag is none of the four tags.
    UnknownTag,
}

/// An ordered list of instructions that turns one byte sequence into
/// another.
#[derive(Debug)]
pub struct DeltaPatch {
    instructions: Vec<Instruction>,
}

impl View for DeltaPatch {
    type V = Seq<Op>;

    closed spec fn view(&self) -> Seq<Op> {
        ops_of(self.instructions@)
    }
}

/// Appends `instruction` in its stored form: as a reference where it may
/// be one and an equal instruction stands in the list within reach.
fn push_stored(instructions: &mut Vec<Instruction>, instruction: Instruction, dedup_copies: bool)
    ensures
        ops_of(final(instructions)@) == ops_of(old(instructions)@).push(
            stored(ops_of(old(instructions)@), instruction@, Format::Wide, dedup_copies),
        ),
{
    let is_copy = matches!(instruction, Instruction::Copy(_));
    let stored_as = if dedup_copies || !is_copy {
        instruction.try_into_reference(instructions)
    } else {
        instruction
    };
    proof {
        lemma_ops_of_push(instructions@, stored_as);
    }
    instructions.push(stored_as);
}

/// Scans the run of agreeing bytes that starts at `p`, up to 255 of them.
fn scan_copy(source: &[u8], target: &[u8], p: usize) -> (copy: crate::instructions::copy::Copy)
    requires
        p < shared_len(source@, target@),
        source@[p as int] == target@[p as int],
    ensures
        copy@ == if run_len(source@, target@, p as int, true) > 255 {
            255
        } else {
            run_len(source@, target@, p as int, true)
        },
        1 <= copy@ <= shared_len(source@, target@) - p,
{
    let shared = if source.len() <= target.len() {
        source.len()
    } else {
        target.len()
    };
    let mut copy = crate::instructions::copy::Copy::default();
    let mut q: usize = p;
    while q < shared && source[q] == target[q] && copy.length() < 255
        invariant
            p <= q <= shared,
            shared == shared_len(source@, target@),
            copy@ == q - p,
            copy@ <= 255,
            run_len(source@, target@, p as int, true) == (q - p) + run_len(
                source@,
                target@,
                q as int,
                true,
            ),
        decreases shared - q,
    {
        let _ = copy.push(source[q]);
        q = q + 1;
    }
    proof {
        lemma_run_stays_inside(source@, target@, p as int, true);
    }
    copy
}

/// Emits the steps of the run of differing bytes that starts at `p`, and
/// returns the position behind the run.
fn emit_diff(
    instructions: &mut Vec<Instruction>,
    source: &[u8],
    target: &[u8],
    p: usize,
    dedup_copies: bool,
) -> (end: usize)
    requires
        p < shared_len(source@, target@),
        source@[p as int] != target@[p as int],
    ensures
        end == p + run_len(source@, target@, p as int, false),
        p < end <= shared_len(source@, target@),
        ops_of(final(instructions)@) == append_all(
            ops_of(old(instructions)@),
            diff_ops(source@, target@, p as int, run_len(source@, target@, p as int, false)),
            Format::Wide,
            dedup_copies,
        ),
{
    let shared = if source.len() <= target.len() {
        source.len()
    } else {
        target.len()
    };
    let ghost end = p + run_len(source@, target@, p as int, false);
    let ghost goal = append_all(
        ops_of(instructions@),
        diff_ops(source@, target@, p as int, run_len(source@, target@, p as int, false)),
        Format::Wide,
        dedup_copies,
    );
    let ghost mut chunk_start: int = p as int;
    let mut remove = Remove::default();
    let mut add = Add::default();
    let mut q: usize = p;
    proof {
        lemma_run_stays_inside(source@, target@, p as int, false);
    }
    while q < shared && source[q] != target[q]
        invariant
            p <= chunk_start <= q <= end <= shared,
            shared == shared_len(source@, target@),
            end == q + run_len(source@, target@, q as int, false),
            q - chunk_start < 255,
            remove@ == source@.subrange(chunk_start, q as int),
            add@ == target@.subrange(chunk_start, q as int),
            goal == append_all(
                ops_of(instructions@),
                diff_ops(source@, target@, chunk_start, (end - chunk_start) as nat),
                Format::Wide,
                dedup_copies,
            ),
        decreases shared - q,
    {
        let _ = remove.push(source[q]);
        let _ = add.push(target[q]);
        q = q + 1;
        assert(remove@ == source@.subrange(chunk_start, q as int));
        assert(add@ == target@.subrange(chunk_start, q as int));
        if remove.length() == 255 {
            let ghost before = ops_of(instructions@);
            let ghost rest = diff_ops(source@, target@, q as int, (end - q) as nat);
            proof {
                lemma_append_cons(
                    before,
                    Op::Remove(remove@),
                    seq![Op::Add(add@)] + rest,
                    Format::Wide,
                    dedup_copies,
                );
                lemma_append_cons(
                    before.push(stored(before, Op::Remove(remove@), Format::Wide, dedup_copies)),
                    Op::Add(add@),
                    rest,
                    Format::Wide,
                    dedup_copies,
                );
                assert(diff_ops(source@, target@, chunk_start, (end - chunk_start) as nat)
                    =~= seq![Op::Remove(remove@)] + (seq![Op::Add(add@)] + rest));
            }
            push_stored(instructions, Instruction::Remove(remove), dedup_copies);
            push_stored(instructions, Instruction::Add(add), dedup_copies);
            remove = Remove::default();
            add = Add::default();
            proof {
                chunk_start = q as int;
            }
        }
    }
    proof {
        let before = ops_of(instructions@);
        assert(run_len(source@, target@, q as int, false) == 0);
        lemma_append_cons(
            before,
            Op::Remove(remove@),
            seq![Op::Add(add@)],
            Format::Wide,
            dedup_copies,
        );
        lemma_append_cons(
            before.push(stored(before, Op::Remove(remove@), Format::Wide, dedup_copies)),
            Op::Add(add@),
            Seq::empty(),
            Format::Wide,
            dedup_copies,
        );
        assert(seq![Op::Add(add@)] + Seq::<Op>::empty() =~= seq![Op::Add(add@)]);
        assert(diff_ops(source@, target@, chunk_start, (end - chunk_start) as nat) =~= seq![
            Op::Remove(remove@),
        ] + seq![Op::Add(add@)]);
    }
    push_stored(instructions, Instruction::Remove(remove), dedup_copies);
    push_stored(instructions, Instruction::Add(add), dedup_copies);
    q
}

/// Emits what `bytes` holds from `from` on, in pieces of at most 255 bytes:
/// as removes if `removing`, as adds otherwise.
fn emit_tail(
    instructions: &mut Vec<Instruction>,
    bytes: &[u8],
    from: usize,
    removing: bool,
    dedup_copies: bool,
)
    ensures
        ops_of(final(instructions)@) == append_all(
            ops_of(old(instructions)@),
            tail_ops(bytes@, from as int, removing),
            Format::Wide,
            dedup_copies,
        ),
{
    let ghost goal = append_all(
        ops_of(instructions@),
        tail_ops(bytes@, from as int, removing),
        Format::Wide,
        dedup_copies,
    );
    let mut q: usize = from;
    while q < bytes.len()
        invariant
            goal == append_all(
                ops_of(instructions@),
                tail_ops(bytes@, q as int, removing),
                Format::Wide,
                dedup_copies,
            ),
        decreases bytes.len() - q,
    {
        let left = bytes.len() - q;
        let n = if left > MAX_CHUNK {
            MAX_CHUNK
        } else {
            left
        };
        let piece = vstd::slice::slice_subrange(bytes, q, q + n);
        let ghost before = ops_of(instructions@);
        if removing {
            let mut remove = Remove::with_capacity(n as u8);
            let _ = remove.push_slice(piece);
            proof {
                lemma_append_cons(
                    before,
                    Op::Remove(remove@),
                    tail_ops(bytes@, q + n, removing),
                    Format::Wide,
                    dedup_copies,
                );
            }
            push_stored(instructions, Instruction::Remove(remove), dedup_copies);
        } else {
            let mut add = Add::with_capacity(n as u8);
            let _ = add.push_slice(piece);
            proof {
                lemma_append_cons(
                    before,
                    Op::Add(add@),
                    tail_ops(bytes@, q + n, removing),
                    Format::Wide,
                    dedup_copies,
                );
            }
            push_stored(instructions, Instruction::Add(add), dedup_copies);
        }
        q = q + n;
    }
}

/// Rebuilds one sequence from the other: the target from the source in
/// forward direction, the source from the target in reverse.
fn rebuild(instructions: &Vec<Instruction>, given: &[u8], direction: Direction) -> (r: Result<
    Vec<u8>,
    ApplyPatchError,
>)
    ensures
        match r {
            Ok(rebuilt) => apply(ops_of(instructions@), Format::Wide, direction, given@) == Ok::<
                Seq<u8>,
                ApplyPatchError,
            >(rebuilt@),
            Err(e) => apply(ops_of(instructions@), Format::Wide, direction, given@) == Err::<
                Seq<u8>,
                ApplyPatchError,
            >(e),
        },
{
    let ghost list = ops_of(instructions@);
    let ghost goal = apply(list, Format::Wide, direction, given@);
    let mismatch = match direction {
        Direction::Forward => ApplyPatchError::SourceMismatch,
        Direction::Reverse => ApplyPatchError::TargetMismatch,
    };
    let mut out: Vec<u8> = Vec::new();
    let mut pos: usize = 0;
    let mut i: usize = 0;
    assert(given@.len() == given.len());
    while i < instructions.len()
        invariant
            i <= instructions@.len(),
            pos <= given@.len(),
            list == ops_of(instructions@),
            mismatch == direction.mismatch(),
            given@.len() <= usize::MAX,
            goal == apply(list, Format::Wide, direction, given@),
            goal == apply_from(list, Format::Wide, direction, given@, i as int, pos as int, out@),
        decreases instructions.len() - i,
    {
        let resolved: &Instruction = match &instructions[i] {
            Instruction::Reference(reference) => {
                let at = reference.index() as usize;
                if at >= i {
                    return Err(ApplyPatchError::DanglingReference);
                }
                if matches!(instructions[at], Instruction::Reference(_)) {
                    return Err(ApplyPatchError::DanglingReference);
                }
                &instructions[at]
            },
            _ => &instructions[i],
        };
        assert(resolve(list, i as int, Format::Wide) == Some(resolved@));
        let ghost before = out@;
        match resolved {
            Instruction::Copy(copy) => {
                let n = copy.length() as usize;
                if n > given.len() - pos {
                    return Err(mismatch);
                }
                out.extend_from_slice(vstd::slice::slice_subrange(given, pos, pos + n));
                assert(out@ =~= before + given@.subrange(pos as int, pos + n));
                pos = pos + n;
            },
            Instruction::Add(add) => {
                match direction {
                    Direction::Forward => {
                        out.extend_from_slice(add.bytes());
                        assert(out@ =~= before + add@);
                        assert(given@.subrange(pos as int, pos as int) =~= Seq::<u8>::empty());
                    },
                    Direction::Reverse => {
                        if !holds_at(given, pos, add.bytes()) {
                            return Err(mismatch);
                        }
                        pos = pos + add.bytes().len();
                        assert(out@ =~= before + Seq::<u8>::empty());
                    },
                }
            },
            Instruction::Remove(remove) => {
                match direction {
                    Direction::Forward => {
                        if !holds_at(given, pos, remove.bytes()) {
                            return Err(mismatch);
                        }
                        pos = pos + remove.bytes().len();
                        assert(out@ =~= before + Seq::<u8>::empty());
                    },
                    Direction::Reverse => {
                        out.extend_from_slice(remove.bytes());
                        assert(out@ =~= before + remove@);
                        assert(given@.subrange(pos as int, pos as int) =~= Seq::<u8>::empty());
                    },
                }
            },
            Instruction::Reference(_) => {
                return Err(ApplyPatchError::DanglingReference);
            },
        }
        i = i + 1;
    }
    Ok(out)
}

impl DeltaPatch {
    /// The patch that turns `source_bytes` into `target_bytes`, with
    /// repeated adds and removes stored as references and every copy stored
    /// as it is.
    ///
    /// Applied forward to the source it gives the target, applied in
    /// reverse to the target it gives the source, each of its instructions
    /// fits its frame, and its wire form is read back as the patch.
    pub fn encode(source_bytes: &[u8], target_bytes: &[u8]) -> (patch: Self)
        ensures
            patch@ == encode_ops(source_bytes@, target_bytes@, Format::Wide, false),
            apply(patch@, Format::Wide, Direction::Forward, source_bytes@) == Ok::<
                Seq<u8>,
                ApplyPatchError,
            >(target_bytes@),
            apply(patch@, Format::Wide, Direction::Reverse, target_bytes@) == Ok::<
                Seq<u8>,
                ApplyPatchError,
            >(source_bytes@),
            all_fit(patch@, Format::Wide),
            parse_all(frames(patch@, Format::Wide)) == Ok::<Seq<Op>, DecodeError>(patch@),
    {
        Self::encode_with(source_bytes, target_bytes, false)
    }

    /// The patch that turns `source_bytes` into `target_bytes`. With
    /// `dedup_copies`, a repeated copy is stored as a reference too.
    ///
    /// Either way the patch applied forward to the source gives the target,
    /// applied in reverse to the target it gives the source, each of its
    /// instructions fits its frame, and its wire form is read back as the
    /// patch.
    pub fn encode_with(source_bytes: &[u8], target_bytes: &[u8], dedup_copies: bool) -> (patch:
        Self)
        ensures
            patch@ == encode_ops(source_bytes@, target_bytes@, Format::Wide, dedup_copies),
            apply(patch@, Format::Wide, Direction::Forward, source_bytes@) == Ok::<
                Seq<u8>,
                ApplyPatchError,
            >(target_bytes@),
            apply(patch@, Format::Wide, Direction::Reverse, target_bytes@) == Ok::<
                Seq<u8>,
                ApplyPatchError,
            >(source_bytes@),
            all_fit(patch@, Format::Wide),
            parse_all(frames(patch@, Format::Wide)) == Ok::<Seq<Op>, DecodeError>(patch@),
    {
        proof {
            encode_then_apply(source_bytes@, target_bytes@, Format::Wide, dedup_copies);
            encode_fits_frames(source_bytes@, target_bytes@, Format::Wide, dedup_copies);
            encode_frames_parse_back(source_bytes@, target_bytes@, dedup_copies);
        }
        let shared = if source_bytes.len() <= target_bytes.len() {
            source_bytes.len()
        } else {
            target_bytes.len()
        };
        let ghost goal = encode_ops(source_bytes@, target_bytes@, Format::Wide, dedup_copies);
        let mut instructions: Vec<Instruction> = Vec::new();
        let mut p: usize = 0;
        assert(ops_of(instructions@) =~= Seq::<Op>::empty());
        while p < shared
            invariant
                p <= shared,
                shared == shared_len(source_bytes@, target_bytes@),
                goal == append_all(
                    ops_of(instructions@),
                    raw_ops(source_bytes@, target_bytes@, p as int),
                    Format::Wide,
                    dedup_copies,
                ),
            decreases shared - p,
        {
            let ghost before = ops_of(instructions@);
            if source_bytes[p] == target_bytes[p] {
                let copy = scan_copy(source_bytes, target_bytes, p);
                let n = copy.length();
                proof {
                    lemma_append_cons(
                        before,
                        Op::Copy(copy@),
                        raw_ops(source_bytes@, target_bytes@, p + n),
                        Format::Wide,
                        dedup_copies,
                    );
                }
                push_stored(&mut instructions, Instruction::Copy(copy), dedup_copies);
                p = p + n as usize;
            } else {
                let ghost run = run_len(source_bytes@, target_bytes@, p as int, false);
                proof {
                    lemma_append_concat(
                        before,
                        diff_ops(source_bytes@, target_bytes@, p as int, run),
                        raw_ops(source_bytes@, target_bytes@, p + run),
                        Format::Wide,
                        dedup_copies,
                    );
                }
                p = emit_diff(&mut instructions, source_bytes, target_bytes, p, dedup_copies);
            }
        }
        proof {
            lemma_append_concat(
                ops_of(instructions@),
                tail_ops(source_bytes@, shared as int, true),
                tail_ops(target_bytes@, shared as int, false),
                Format::Wide,
                dedup_copies,
            );
        }
        emit_tail(&mut instructions, source_bytes, shared, true, dedup_copies);
        emit_tail(&mut instructions, target_bytes, shared, false, dedup_copies);
        Self { instructions }
    }

    /// Reads a patch from its wire form. The whole of `bytes` must be
    /// frames: what is cut short or starts with an unknown tag is an error.
    pub fn decode(bytes: &Vec<u8>) -> (r: Result<Self, DecodeError>)
        ensures
            match r {
                Ok(patch) => parse_all(bytes@) == Ok::<Seq<Op>, DecodeError>(patch@),
                Err(e) => parse_all(bytes@) == Err::<Seq<Op>, DecodeError>(e) && e
                    != DecodeError::MissingTag,
            },
    {
        proof {
            parse_all_finds_its_tags(bytes@);
        }
        let mut instructions: Vec<Instruction> = Vec::new();
        let mut cursor = ByteCursor::new(bytes.as_slice());
        assert(ops_of(instructions@) =~= Seq::<Op>::empty());
        while cursor.remaining() > 0
            invariant
                match parse_all(cursor@) {
                    Ok(rest) => parse_all(bytes@) == Ok::<Seq<Op>, DecodeError>(
                        ops_of(instructions@) + rest,
                    ),
                    Err(e) => parse_all(bytes@) == Err::<Seq<Op>, DecodeError>(e),
                },
            decreases cursor@.len(),
        {
            let ghost before = ops_of(instructions@);
            let ghost unread = cursor@;
            match Instruction::decode_one(&mut cursor) {
                Ok(instruction) => {
                    proof {
                        lemma_ops_of_push(instructions@, instruction);
                        let used = parse_one(unread).unwrap().1;
                        assert(2 <= used <= unread.len());
                        match parse_all(cursor@) {
                            Ok(rest) => {
                                assert(before.push(instruction@) + rest =~= before + (seq![
                                    instruction@,
                                ] + rest));
                            },
                            Err(_) => {},
                        }
                    }
                    instructions.push(instruction);
                },
                Err(e) => {
                    return Err(e);
                },
            }
        }
        proof {
            assert(ops_of(instructions@) + Seq::<Op>::empty() =~= ops_of(instructions@));
        }
        Ok(Self { instructions })
    }

    /// The target that this patch makes of `source`.
    ///
    /// Fails where a reference names no earlier instruction that is not
    /// itself a reference, and where a copy or remove does not find its
    /// bytes in `source`.
    pub fn apply_forward(&self, source: &[u8]) -> (r: Result<Vec<u8>, ApplyPatchError>)
        ensures
            match r {
                Ok(target) => apply(self@, Format::Wide, Direction::Forward, source@) == Ok::<
                    Seq<u8>,
                    ApplyPatchError,
                >(target@),
                Err(e) => apply(self@, Format::Wide, Direction::Forward, source@) == Err::<
                    Seq<u8>,
                    ApplyPatchError,
                >(e),
            },
    {
        rebuild(&self.instructions, source, Direction::Forward)
    }

    /// The source of which this patch makes `target`.
    ///
    /// Fails where a reference names no earlier instruction that is not
    /// itself a reference, and where a copy or add does not find its bytes
    /// in `target`.
    pub fn apply_reverse(&self, target: &[u8]) -> (r: Result<Vec<u8>, ApplyPatchError>)
        ensures
            match r {
                Ok(source) => apply(self@, Format::Wide, Direction::Reverse, target@) == Ok::<
                    Seq<u8>,
                    ApplyPatchError,
                >(source@),
                Err(e) => apply(self@, Format::Wide, Direction::Reverse, target@) == Err::<
                    Seq<u8>,
                    ApplyPatchError,
                >(e),
            },
    {
        rebuild(&self.instructions, target, Direction::Reverse)
    }

    /// The instructions, in the order in which they apply.
    pub fn instructions(&self) -> (instructions: &Vec<Instruction>)
        ensures
            ops_of(instructions@) == self@,
    {
        &self.instructions
    }
}

impl ToBytes for DeltaPatch {
    open spec fn wire(&self) -> Seq<u8> {
        frames(self@, Format::Wide)
    }

    /// The frames of all instructions, in order, with nothing around them.
    fn to_bytes(&self) -> (bytes: Vec<u8>) {
        let ghost list = ops_of(self.instructions@);
        let mut bytes: Vec<u8> = Vec::new();
        let mut i: usize = 0;
        assert(list.take(0) =~= Seq::<Op>::empty());
        while i < self.instructions.len()
            invariant
                i <= self.instructions@.len(),
                list == ops_of(self.instructions@),
                bytes@ == frames(list.take(i as int), Format::Wide),
            decreases self.instructions.len() - i,
        {
            let ghost before = bytes@;
            let one = self.instructions[i].to_bytes();
            bytes.extend_from_slice(one.as_slice());
            proof {
                assert(bytes@ =~= before + one@);
                assert(list.take(i + 1).drop_last() =~= list.take(i as int));
                assert(list.take(i + 1).last() == list[i as int]);
            }
            i = i + 1;
        }
        assert(list.take(i as int) =~= list);
        bytes
    }
}

} // verus!
