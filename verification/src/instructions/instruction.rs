//! The instruction as a closed sum, and the traits that its variants share.

use vstd::prelude::*;
use vstd::std_specs::cmp::PartialEqSpecImpl;
use crate::cursor::ByteCursor;
use crate::delta_p::DecodeError;
use crate::instructions::add::Add;
use crate::instructions::reference::{Reference, ReferenceSize};
use crate::instructions::remove::Remove;
use crate::model::dedup::{first_match, lemma_first_match, reference_index, stored};
use crate::model::op::{Format, Op, MAX_CHUNK};
use crate::model::wire::{frame, parse_one, ADD_SIGN, COPY_SIGN, REFERENCE_SIGN, REMOVE_SIGN};

verus! {

/// An instruction was asked to hold more than 255 bytes.
#[derive(Debug, PartialEq, Eq, Structural, Clone, Copy)]
pub enum InstructionError {
    /// The length would no longer fit the length byte of the frame.
    CapacityExceeded,
}

/// Instructions that have a length.
pub trait ChunkLength {
    type Output;

    /// The length as a number.
    spec fn chunk_len(&self) -> nat;

    /// The number that a value of the length field stands for.
    spec fn measure(length: Self::Output) -> nat;

    /// The length, in the type of the frame's length field.
    fn length(&self) -> (length: Self::Output)
        ensures
            Self::measure(length) == self.chunk_len(),
    ;
}

/// Instructions that grow byte by byte while the encoder scans.
pub trait PushByte: Sized {
    /// The number of bytes taken in so far.
    spec fn taken(&self) -> nat;

    /// Takes in one byte. Fails, and changes nothing, where 255 bytes were
    /// taken in already.
    fn push(&mut self, byte: u8) -> (r: Result<(), InstructionError>)
        ensures
            r is Ok <==> old(self).taken() < MAX_CHUNK,
            r is Ok ==> final(self).taken() == old(self).taken() + 1,
            r is Err ==> *final(self) == *old(self),
    ;

    /// Takes in all bytes of `slice`. Fails, and changes nothing, where that
    /// would make more than 255.
    fn push_slice(&mut self, slice: &[u8]) -> (r: Result<(), InstructionError>)
        ensures
            r is Ok <==> old(self).taken() + slice@.len() <= MAX_CHUNK,
            r is Ok ==> final(self).taken() == old(self).taken() + slice@.len(),
            r is Err ==> *final(self) == *old(self),
    ;
}

/// Instructions that carry bytes.
pub trait ByteChunk {
    /// The bytes carried.
    spec fn chunk(&self) -> Seq<u8>;

    /// The bytes carried, at most 255.
    fn bytes(&self) -> (bytes: &[u8])
        ensures
            bytes@ == self.chunk(),
            bytes@.len() <= MAX_CHUNK,
    ;
}

/// Values with a wire form.
pub trait ToBytes {
    /// The wire form.
    spec fn wire(&self) -> Seq<u8>;

    /// Writes the wire form.
    fn to_bytes(&self) -> (bytes: Vec<u8>)
        ensures
            bytes@ == self.wire(),
    ;
}

/// One instruction of a patch.
#[derive(Debug)]
pub enum Instruction {
    Add(Add),
    Remove(Remove),
    Copy(crate::instructions::copy::Copy),
    Reference(Reference),
}

impl View for Instruction {
    type V = Op;

    open spec fn view(&self) -> Op {
        match self {
            Instruction::Add(add) => Op::Add(add@),
            Instruction::Remove(remove) => Op::Remove(remove@),
            Instruction::Copy(copy) => Op::Copy(copy@),
            Instruction::Reference(reference) => Op::Reference(reference@),
        }
    }
}

/// The steps that a list of instructions stands for.
pub open spec fn ops_of(list: Seq<Instruction>) -> Seq<Op> {
    Seq::new(list.len(), |i: int| list[i]@)
}

/// The steps of a list with one more instruction are the steps of the list
/// with one more step.
pub proof fn lemma_ops_of_push(list: Seq<Instruction>, instruction: Instruction)
    ensures
        ops_of(list.push(instruction)) == ops_of(list).push(instruction@),
{
    assert(ops_of(list.push(instruction)) =~= ops_of(list).push(instruction@));
}

impl PartialEq for Instruction {
    /// Two instructions are equal where they are of the same kind and hold
    /// the same bytes, length or index.
    fn eq(&self, other: &Self) -> (r: bool) {
        match (self, other) {
            (Instruction::Add(a), Instruction::Add(b)) => a == b,
            (Instruction::Remove(a), Instruction::Remove(b)) => a == b,
            (Instruction::Copy(a), Instruction::Copy(b)) => a == b,
            (Instruction::Reference(a), Instruction::Reference(b)) => a == b,
            _ => false,
        }
    }
}

impl PartialEqSpecImpl for Instruction {
    open spec fn obeys_eq_spec() -> bool {
        true
    }

    open spec fn eq_spec(&self, other: &Self) -> bool {
        self@ == other@
    }
}

impl Instruction {
    /// The add instruction, if this is one.
    pub fn add(&self) -> (r: Option<&Add>)
        ensures
            match r {
                Some(add) => *self == Instruction::Add(*add),
                None => !(self is Add),
            },
    {
        match self {
            Instruction::Add(add_instruction) => Some(add_instruction),
            _ => None,
        }
    }

    /// The remove instruction, if this is one.
    pub fn remove(&self) -> (r: Option<&Remove>)
        ensures
            match r {
                Some(remove) => *self == Instruction::Remove(*remove),
                None => !(self is Remove),
            },
    {
        match self {
            Instruction::Remove(remove_instruction) => Some(remove_instruction),
            _ => None,
        }
    }

    /// The copy instruction, if this is one.
    pub fn copy(&self) -> (r: Option<&crate::instructions::copy::Copy>)
        ensures
            match r {
                Some(copy) => *self == Instruction::Copy(*copy),
                None => !(self is Copy),
            },
    {
        match self {
            Instruction::Copy(copy_instruction) => Some(copy_instruction),
            _ => None,
        }
    }

    /// The reference instruction, if this is one.
    pub fn reference(&self) -> (r: Option<&Reference>)
        ensures
            match r {
                Some(reference) => *self == Instruction::Reference(*reference),
                None => !(self is Reference),
            },
    {
        match self {
            Instruction::Reference(reference_instruction) => Some(reference_instruction),
            _ => None,
        }
    }

    /// The add instruction for change in place, if this is one.
    pub fn add_mut(&mut self) -> (r: Option<&mut Add>)
        ensures
            match r {
                Some(add) => *old(self) == Instruction::Add(*add) && *final(self)
                    == Instruction::Add(*final(add)),
                None => !(*old(self) is Add) && *final(self) == *old(self),
            },
    {
        match self {
            Instruction::Add(add_instruction) => Some(add_instruction),
            _ => None,
        }
    }

    /// The remove instruction for change in place, if this is one.
    pub fn remove_mut(&mut self) -> (r: Option<&mut Remove>)
        ensures
            match r {
                Some(remove) => *old(self) == Instruction::Remove(*remove) && *final(self)
                    == Instruction::Remove(*final(remove)),
                None => !(*old(self) is Remove) && *final(self) == *old(self),
            },
    {
        match self {
            Instruction::Remove(remove_instruction) => Some(remove_instruction),
            _ => None,
        }
    }

    /// The copy instruction for change in place, if this is one.
    pub fn copy_mut(&mut self) -> (r: Option<&mut crate::instructions::copy::Copy>)
        ensures
            match r {
                Some(copy) => *old(self) == Instruction::Copy(*copy) && *final(self)
                    == Instruction::Copy(*final(copy)),
                None => !(*old(self) is Copy) && *final(self) == *old(self),
            },
    {
        match self {
            Instruction::Copy(copy_instruction) => Some(copy_instruction),
            _ => None,
        }
    }

    /// The reference instruction for change in place, if this is one.
    pub fn reference_mut(&mut self) -> (r: Option<&mut Reference>)
        ensures
            match r {
                Some(reference) => *old(self) == Instruction::Reference(*reference) && *final(self)
                    == Instruction::Reference(*final(reference)),
                None => !(*old(self) is Reference) && *final(self) == *old(self),
            },
    {
        match self {
            Instruction::Reference(reference_instruction) => Some(reference_instruction),
            _ => None,
        }
    }

    /// The index of the first instruction of `collection` that equals
    /// `self`, where there is one and the index fits a reference.
    pub fn find_in(&self, collection: &Vec<Instruction>) -> (index: Option<ReferenceSize>)
        ensures
            match index {
                Some(i) => reference_index(ops_of(collection@), self@, Format::Wide) == Some(
                    i as nat,
                ),
                None => reference_index(ops_of(collection@), self@, Format::Wide) is None,
            },
    {
        let ghost list = ops_of(collection@);
        let mut i: usize = 0;
        while i < collection.len() && i <= ReferenceSize::MAX as usize
            invariant
                i <= collection.len(),
                list == ops_of(collection@),
                first_match(list, self@, 0, list.len() as int) == first_match(
                    list,
                    self@,
                    i as int,
                    list.len() as int,
                ),
            decreases collection.len() - i,
        {
            if collection[i] == *self {
                return Some(i as ReferenceSize);
            }
            i = i + 1;
        }
        proof {
            lemma_first_match(list, self@, i as int, list.len() as int);
        }
        None
    }

    /// A reference to the first instruction of `collection` that equals
    /// `self`, where there is one and its index fits a reference; `self`
    /// otherwise.
    pub fn try_into_reference(self, collection: &Vec<Instruction>) -> (stored_as: Instruction)
        ensures
            stored_as@ == stored(ops_of(collection@), self@, Format::Wide, true),
    {
        match self.find_in(collection) {
            Some(index) => Instruction::Reference(Reference::new(index)),
            None => self,
        }
    }

    /// Reads one frame. On an error nothing is read.
    pub fn decode_one(cursor: &mut ByteCursor) -> (r: Result<Instruction, DecodeError>)
        ensures
            match r {
                Ok(instruction) => parse_one(old(cursor)@) matches Ok((op, used)) && op
                    == instruction@ && final(cursor)@ == old(cursor)@.skip(used),
                Err(e) => parse_one(old(cursor)@) == Err::<(Op, int), DecodeError>(e)
                    && final(cursor)@ == old(cursor)@,
            },
    {
        let tag = match cursor.peek() {
            Some(tag) => tag,
            None => {
                return Err(DecodeError::MissingTag);
            },
        };
        if tag == ADD_SIGN || tag == REMOVE_SIGN {
            let length = match cursor.peek_at(1) {
                Some(length) => length,
                None => {
                    return Err(DecodeError::MissingLength);
                },
            };
            if cursor.remaining() - 2 < length as usize {
                return Err(DecodeError::MissingPayload);
            }
            cursor.next();
            cursor.next();
            let chunk = cursor.take(length as usize);
            assert(chunk@ == old(cursor)@.subrange(2, 2 + length));
            assert(cursor@ == old(cursor)@.skip(2 + length));
            if tag == ADD_SIGN {
                let mut add = Add::with_capacity(length);
                let _ = add.push_slice(chunk);
                assert(add@ == chunk@);
                Ok(Instruction::Add(add))
            } else {
                let mut remove = Remove::with_capacity(length);
                let _ = remove.push_slice(chunk);
                assert(remove@ == chunk@);
                Ok(Instruction::Remove(remove))
            }
        } else if tag == COPY_SIGN {
            let length = match cursor.peek_at(1) {
                Some(length) => length,
                None => {
                    return Err(DecodeError::MissingLength);
                },
            };
            cursor.next();
            cursor.next();
            assert(cursor@ == old(cursor)@.skip(2));
            Ok(Instruction::Copy(crate::instructions::copy::Copy::new(length)))
        } else if tag == REFERENCE_SIGN {
            if cursor.remaining() < 3 {
                return Err(DecodeError::MissingReferenceIndex);
            }
            cursor.next();
            let high = cursor.next().unwrap();
            let low = cursor.next().unwrap();
            assert(cursor@ == old(cursor)@.skip(3));
            Ok(Instruction::Reference(Reference::new(high as u16 * 256 + low as u16)))
        } else {
            Err(DecodeError::UnknownTag)
        }
    }
}

impl ToBytes for Instruction {
    open spec fn wire(&self) -> Seq<u8> {
        frame(self@, Format::Wide)
    }

    fn to_bytes(&self) -> (bytes: Vec<u8>) {
        match self {
            Instruction::Add(add) => add.to_bytes(),
            Instruction::Remove(remove) => remove.to_bytes(),
            Instruction::Copy(copy) => copy.to_bytes(),
            Instruction::Reference(reference) => reference.to_bytes(),
        }
    }
}

} // verus!
