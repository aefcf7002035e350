//! Inflating zlib streams.

use flate2::write::ZlibDecoder;
use std::io::Write;
use vstd::prelude::*;

use crate::error::PakError;

verus! {

/// The error of the standard library's I/O traits; nothing is read from it.
#[verifier::external_type_specification]
#[verifier::external_body]
pub struct ExIoError(std::io::Error);

/// What flate2's zlib decoder hands back when `stream` is written to it
/// whole and the decoder is then finished: the bytes it has written out, or
/// `None` where it reports an error.
pub uninterp spec fn zlib_inflated(stream: Seq<u8>) -> Option<Seq<u8>>;

/// Runs `stream` through flate2's `write::ZlibDecoder`: a new decoder over
/// an empty vector, `write_all` of the stream, then `finish`, which hands
/// the vector back. The outcome depends on the stream alone and is
/// `zlib_inflated` of it.
#[verifier::external_body]
fn run_decoder(stream: &[u8]) -> (r: Result<Vec<u8>, std::io::Error>)
    ensures
        match r {
            Ok(out) => zlib_inflated(stream@) == Some(out@),
            Err(_) => zlib_inflated(stream@) is None,
        },
{
    let mut decoder = ZlibDecoder::new(Vec::new());
    decoder.write_all(stream)?;
    decoder.finish()
}

/// What becomes of a decoder's outcome for a payload that is recorded to
/// hold `raw_size` bytes: it stands only if the decoder reported no error
/// and wrote out exactly that many bytes.
pub open spec fn sized(inflated: Option<Seq<u8>>, raw_size: int) -> Result<Seq<u8>, PakError> {
    match inflated {
        Some(out) => if out.len() == raw_size {
            Ok(out)
        } else {
            Err(PakError::Decompress)
        },
        None => Err(PakError::Decompress),
    }
}

/// A result that holds bytes, with the bytes as a sequence.
pub open spec fn as_seq(r: Result<Vec<u8>, PakError>) -> Result<Seq<u8>, PakError> {
    match r {
        Ok(bytes) => Ok(bytes@),
        Err(e) => Err(e),
    }
}

/// Accepts what a decoder has written out if it is exactly `raw_size` bytes
/// long, and refuses a failed or differently sized outcome as
/// `PakError::Decompress`.
pub fn check_inflated(inflated: Option<Vec<u8>>, raw_size: u32) -> (r: Result<Vec<u8>, PakError>)
    ensures
        as_seq(r) == sized(
            match inflated {
                Some(out) => Some(out@),
                None => None,
            },
            raw_size as int,
        ),
{
    match inflated {
        Some(out) => {
            if out.len() == raw_size as usize {
                Ok(out)
            } else {
                Err(PakError::Decompress)
            }
        },
        None => Err(PakError::Decompress),
    }
}

/// Inflates a zlib stream that is recorded to hold `raw_size` bytes.
pub fn inflate(stream: &[u8], raw_size: u32) -> (r: Result<Vec<u8>, PakError>)
    ensures
        as_seq(r) == sized(zlib_inflated(stream@), raw_size as int),
{
    let inflated: Option<Vec<u8>> = match run_decoder(stream) {
        Ok(out) => Some(out),
        Err(_) => None,
    };
    check_inflated(inflated, raw_size)
}

} // verus!
