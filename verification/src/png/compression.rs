//! Inflation of zlib streams.

use crate::error::{DecompressError, ErrorKind};
use std::io::Read;
use vstd::prelude::*;

verus! {

/// What a zlib decoder makes of the stream `data`: the inflated bytes of
/// its first zlib member, or the class of the failure where the stream is
/// corrupt or incomplete.
pub uninterp spec fn zlib_inflated(data: Seq<u8>) -> Result<Seq<u8>, ErrorKind>;

/// Runs `flate2::read::ZlibDecoder` over `data` to its end with
/// `Read::read_to_end`. The contract only names the outcome, as
/// `zlib_inflated(data)`: the bytes read on success, the class of the
/// `std::io::Error` on failure. Nothing is claimed about what they are.
#[verifier::external_body]
fn zlib_read_to_end(data: &[u8]) -> (r: Result<Vec<u8>, ErrorKind>)
    ensures
        zlib_inflated(data@) == match r {
            Ok(bytes) => Ok::<Seq<u8>, ErrorKind>(bytes@),
            Err(kind) => Err(kind),
        },
{
    let mut inflated = Vec::new();
    match flate2::read::ZlibDecoder::new(data).read_to_end(&mut inflated) {
        Ok(_) => Ok(inflated),
        Err(e) => Err(
            match e.kind() {
                std::io::ErrorKind::InvalidInput => ErrorKind::InvalidInput,
                std::io::ErrorKind::UnexpectedEof => ErrorKind::UnexpectedEof,
                _ => ErrorKind::Other,
            },
        ),
    }
}

/// The outcome of inflating the zlib stream `data`.
pub open spec fn decompressed(data: Seq<u8>) -> Result<Seq<u8>, DecompressError> {
    match zlib_inflated(data) {
        Ok(bytes) => Ok(bytes),
        Err(kind) => Err(DecompressError { kind }),
    }
}

/// Inflates a zlib stream.
///
/// Succeeds exactly where the decoder reads the stream to its end, and then
/// returns what it read. A failure of the decoder comes back as an error
/// that carries the class of the failure.
pub fn decompress(data: &[u8]) -> (r: Result<Vec<u8>, DecompressError>)
    ensures
        decompressed(data@) == match r {
            Ok(bytes) => Ok::<Seq<u8>, DecompressError>(bytes@),
            Err(e) => Err(e),
        },
{
    match zlib_read_to_end(data) {
        Ok(bytes) => Ok(bytes),
        Err(kind) => Err(DecompressError { kind }),
    }
}

} // verus!
