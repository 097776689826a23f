//! The wire form of a patch: one frame per step, nothing around them.

use vstd::prelude::*;
use crate::delta_p::DecodeError;
use crate::model::op::{Op, Format};

verus! {

/// The tag of an add frame, `+`.
pub const ADD_SIGN: u8 = 43;

/// The tag of a remove frame, `-`.
pub const REMOVE_SIGN: u8 = 45;

/// The tag of a reference frame, `&`.
pub const REFERENCE_SIGN: u8 = 38;

/// The tag of a copy frame in the wide format, `C`.
pub const COPY_SIGN: u8 = 67;

/// The tag of a copy frame in the compact format, `#`.
pub const COMPACT_COPY_SIGN: u8 = 35;

impl Format {
    /// The tag of a copy frame.
    pub open spec fn copy_sign(self) -> u8 {
        match self {
            Format::Wide => COPY_SIGN,
            Format::Compact => COMPACT_COPY_SIGN,
        }
    }
}

/// The frame of one step: its tag; then for add and remove the length and
/// the bytes, for copy the length, for a reference the index, high byte
/// first where it has two.
pub open spec fn frame(op: Op, format: Format) -> Seq<u8> {
    match op {
        Op::Add(bytes) => seq![ADD_SIGN, bytes.len() as u8] + bytes,
        Op::Remove(bytes) => seq![REMOVE_SIGN, bytes.len() as u8] + bytes,
        Op::Copy(length) => seq![format.copy_sign(), length as u8],
        Op::Reference(index) => match format {
            Format::Wide => seq![REFERENCE_SIGN, (index / 256) as u8, (index % 256) as u8],
            Format::Compact => seq![REFERENCE_SIGN, index as u8],
        },
    }
}

/// The frames of all steps of `list`, in order.
pub open spec fn frames(list: Seq<Op>, format: Format) -> Seq<u8>
    decreases list.len(),
{
    if list.len() == 0 {
        Seq::empty()
    } else {
        frames(list.drop_last(), format) + frame(list.last(), format)
    }
}

/// The step whose wide frame `bytes` starts with, and the length of that
/// frame; or what is wrong with the start of `bytes`.
pub open spec fn parse_one(bytes: Seq<u8>) -> Result<(Op, int), DecodeError> {
    if bytes.len() == 0 {
        Err(DecodeError::MissingTag)
    } else if bytes[0] == ADD_SIGN || bytes[0] == REMOVE_SIGN {
        if bytes.len() < 2 {
            Err(DecodeError::MissingLength)
        } else if bytes.len() < 2 + bytes[1] {
            Err(DecodeError::MissingPayload)
        } else {
            let chunk = bytes.subrange(2, 2 + bytes[1]);
            let op = if bytes[0] == ADD_SIGN {
                Op::Add(chunk)
            } else {
                Op::Remove(chunk)
            };
            Ok((op, 2 + bytes[1]))
        }
    } else if bytes[0] == COPY_SIGN {
        if bytes.len() < 2 {
            Err(DecodeError::MissingLength)
        } else {
            Ok((Op::Copy(bytes[1] as nat), 2))
        }
    } else if bytes[0] == REFERENCE_SIGN {
        if bytes.len() < 3 {
            Err(DecodeError::MissingReferenceIndex)
        } else {
            Ok((Op::Reference((bytes[1] * 256 + bytes[2]) as nat), 3))
        }
    } else {
        Err(DecodeError::UnknownTag)
    }
}

/// The list whose wide frames make up `bytes` exactly, or the error of the
/// first frame that cannot be read. The empty sequence is the empty list.
pub open spec fn parse_all(bytes: Seq<u8>) -> Result<Seq<Op>, DecodeError>
    decreases bytes.len(),
{
    if bytes.len() == 0 {
        Ok(Seq::empty())
    } else {
        match parse_one(bytes) {
            Err(e) => Err(e),
            Ok((op, used)) => match parse_all(bytes.skip(used)) {
                Ok(rest) => Ok(seq![op] + rest),
                Err(e) => Err(e),
            },
        }
    }
}

} // verus!
