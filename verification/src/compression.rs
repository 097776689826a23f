//! A check that bytes survive general-purpose compression, as patch bytes
//! would on their way to storage and back.

use vstd::prelude::*;
use crate::bytes::same_bytes;

verus! {

/// The compression level of the check.
pub const LEVEL: u8 = 9;

/// The most bytes that the check lets decompression produce.
pub const LIMIT: usize = 60000;

/// The raw deflate stream that `miniz_oxide` makes of `input` at `level`.
pub uninterp spec fn deflated(input: Seq<u8>, level: u8) -> Seq<u8>;

/// What `miniz_oxide` makes of the raw deflate stream `input` when it may
/// produce at most `max_size` bytes: the bytes, or nothing where the
/// stream is broken or holds more.
pub uninterp spec fn inflated(input: Seq<u8>, max_size: usize) -> Option<Seq<u8>>;

/// `miniz_oxide::inflate::DecompressError`, which is carried through
/// unopened.
#[verifier::external_type_specification]
#[verifier::external_body]
pub struct ExDecompressError(miniz_oxide::inflate::DecompressError);

/// `miniz_oxide::deflate::compress_to_vec`: the result is the deflate
/// stream of the input at the given level, which this crate names and says
/// nothing more of. Levels above 10 count as 10.
#[verifier::external_body]
fn deflate(input: &[u8], level: u8) -> (out: Vec<u8>)
    ensures
        out@ == deflated(input@, level),
{
    miniz_oxide::deflate::compress_to_vec(input, level)
}

/// `miniz_oxide::inflate::decompress_to_vec_with_limit`: on success the
/// result is what the stream holds, which this crate names; it fails where
/// the stream is broken or holds more than `max_size` bytes, and the name
/// is then nothing.
#[verifier::external_body]
fn inflate(input: &[u8], max_size: usize) -> (out: Result<
    Vec<u8>,
    miniz_oxide::inflate::DecompressError,
>)
    ensures
        match out {
            Ok(bytes) => inflated(input@, max_size) == Some(bytes@),
            Err(_) => inflated(input@, max_size) is None,
        },
{
    miniz_oxide::inflate::decompress_to_vec_with_limit(input, max_size)
}

/// Why bytes did not survive compression.
#[derive(Debug, PartialEq, Eq, Structural, Clone, Copy)]
pub enum RoundtripError {
    /// The compressed bytes could not be decompressed within the limit.
    FailedToDecompress,
    /// Decompression gave other bytes than were compressed.
    Differs,
}

/// What is wrong with `decompressed` as the way back of `data`, if
/// anything.
pub open spec fn verdict(data: Seq<u8>, decompressed: Option<Seq<u8>>) -> Result<
    (),
    RoundtripError,
> {
    match decompressed {
        None => Err(RoundtripError::FailedToDecompress),
        Some(bytes) => if bytes == data {
            Ok(())
        } else {
            Err(RoundtripError::Differs)
        },
    }
}

/// Judges what decompression gave for `data`: nothing is a failure to
/// decompress, other bytes than `data` differ, `data` itself is fine.
pub fn judge(data: &[u8], decompressed: Option<&[u8]>) -> (r: Result<(), RoundtripError>)
    ensures
        r == verdict(
            data@,
            match decompressed {
                Some(bytes) => Some(bytes@),
                None => None,
            },
        ),
{
    match decompressed {
        None => Err(RoundtripError::FailedToDecompress),
        Some(bytes) => {
            if same_bytes(bytes, data) {
                Ok(())
            } else {
                Err(RoundtripError::Differs)
            }
        },
    }
}

/// Compresses `data` at `LEVEL`, decompresses the result with at most
/// `LIMIT` bytes of output, and compares. Returns the compressed bytes
/// where `data` came back.
pub fn roundtrip(data: &[u8]) -> (r: Result<Vec<u8>, RoundtripError>)
    ensures
        match r {
            Ok(compressed) => compressed@ == deflated(data@, LEVEL) && verdict(
                data@,
                inflated(compressed@, LIMIT),
            ) is Ok,
            Err(e) => verdict(data@, inflated(deflated(data@, LEVEL), LIMIT)) == Err::<
                (),
                RoundtripError,
            >(e),
        },
{
    let compressed = deflate(data, LEVEL);
    let judged = match inflate(compressed.as_slice(), LIMIT) {
        Ok(decompressed) => judge(data, Some(decompressed.as_slice())),
        Err(_) => judge(data, None),
    };
    match judged {
        Ok(()) => Ok(compressed),
        Err(e) => Err(e),
    }
}

} // verus!
