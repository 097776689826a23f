//! Instructions as plain mathematical values.

use vstd::prelude::*;

verus! {

/// The most bytes that one frame can carry: lengths are stored in one byte.
pub const MAX_CHUNK: usize = 255;

/// One step of a patch, stripped of its machine representation.
pub enum Op {
    /// Bytes that appear in the target only.
    Add(Seq<u8>),
    /// Bytes that appear in the source only.
    Remove(Seq<u8>),
    /// A number of bytes that source and target share at their cursors.
    Copy(nat),
    /// Replay of the step found at the given index.
    Reference(nat),
}

/// How a back-reference names its target, and how it is framed.
pub enum Format {
    /// Indices count from the start of the list and fill two bytes.
    Wide,
    /// Indices count from the start of the block of 255 steps that holds the
    /// reference and fill one byte.
    Compact,
}

impl Format {
    /// The list position that index 0 stands for, seen from `position`.
    pub open spec fn base(self, position: int) -> int {
        match self {
            Format::Wide => 0,
            Format::Compact => 255 * (position / 255),
        }
    }

    /// The largest index that a reference of this format can hold.
    pub open spec fn max_index(self) -> nat {
        match self {
            Format::Wide => 0xffff,
            Format::Compact => 0xff,
        }
    }
}

impl Op {
    /// Whether the step fits the frame of the given format.
    pub open spec fn fits(self, format: Format) -> bool {
        match self {
            Op::Add(bytes) => bytes.len() <= MAX_CHUNK,
            Op::Remove(bytes) => bytes.len() <= MAX_CHUNK,
            Op::Copy(length) => length <= MAX_CHUNK,
            Op::Reference(index) => index <= format.max_index(),
        }
    }
}

/// Whether every step of the list fits the frame of the given format.
pub open spec fn all_fit(list: Seq<Op>, format: Format) -> bool {
    forall|i: int| 0 <= i < list.len() ==> (#[trigger] list[i]).fits(format)
}

} // verus!
