//! Text fields of chunks: UTF-8 decoding and comparison of type tags.

use crate::error::{outcome, DecompressError, PngError};
use vstd::prelude::*;
use vstd::utf8::*;

verus! {

/// The error type of `String::from_utf8`, carried as an opaque value.
#[verifier::external_type_specification]
#[verifier::external_body]
pub struct ExFromUtf8Error(std::string::FromUtf8Error);

/// `String::from_utf8` succeeds exactly on valid UTF-8, and the string it
/// returns is made of the bytes it was given: encoded as UTF-8 it gives
/// them back.
pub assume_specification[ String::from_utf8 ](vec: Vec<u8>) -> (r: Result<
    String,
    std::string::FromUtf8Error,
>)
    ensures
        r is Ok <==> valid_utf8(vec@),
        r matches Ok(s) ==> encode_utf8(s@) == vec@,
;

/// The text that a byte sequence encodes in UTF-8, if it is valid UTF-8.
pub open spec fn decoded_text(bytes: Seq<u8>) -> Result<Seq<char>, PngError> {
    if valid_utf8(bytes) {
        Ok(decode_utf8(bytes))
    } else {
        Err(PngError::InvalidText)
    }
}

/// Decodes a byte sequence as UTF-8 text. The text, encoded again, gives
/// the same bytes.
pub fn decode_text(bytes: Vec<u8>) -> (r: Result<String, PngError>)
    ensures
        outcome(r) == decoded_text(bytes@),
        r matches Ok(s) ==> encode_utf8(s@) == bytes@,
{
    match String::from_utf8(bytes) {
        Ok(s) => {
            proof {
                encode_utf8_decode_utf8(s@);
            }
            Ok(s)
        },
        Err(_) => Err(PngError::InvalidText),
    }
}

/// The text of an inflated stream: the failure of the inflation where it
/// failed, else the inflated bytes decoded as UTF-8.
pub open spec fn inflated_text_of(inflated: Result<Seq<u8>, DecompressError>) -> Result<
    Seq<char>,
    PngError,
> {
    match inflated {
        Err(e) => Err(PngError::Decompression(e)),
        Ok(bytes) => decoded_text(bytes),
    }
}

/// Decodes the outcome of an inflation as UTF-8 text.
pub fn inflated_text(inflated: Result<Vec<u8>, DecompressError>) -> (r: Result<String, PngError>)
    ensures
        outcome(r) == inflated_text_of(
            match inflated {
                Ok(bytes) => Ok(bytes@),
                Err(e) => Err(e),
            },
        ),
{
    match inflated {
        Err(e) => Err(PngError::Decompression(e)),
        Ok(bytes) => decode_text(bytes),
    }
}

/// The position of the first NUL byte of `bytes` at or after `from`.
pub open spec fn first_nul(bytes: Seq<u8>, from: int) -> Option<int>
    decreases bytes.len() - from,
{
    if from < 0 || from >= bytes.len() {
        None
    } else if bytes[from] == 0 {
        Some(from)
    } else {
        first_nul(bytes, from + 1)
    }
}

/// Finds the first NUL byte of `bytes` at or after `from`: the position
/// found holds a NUL byte, and no byte between `from` and it does.
pub fn find_nul(bytes: &[u8], from: usize) -> (r: Option<usize>)
    ensures
        first_nul(bytes@, from as int) == match r {
            Some(k) => Some(k as int),
            None => None,
        },
        match r {
            Some(k) => from <= k < bytes@.len() && bytes@[k as int] == 0 && forall|j: int|
                from <= j < k ==> bytes@[j] != 0,
            None => forall|j: int| from <= j < bytes@.len() ==> bytes@[j] != 0,
        },
{
    let mut i: usize = from;
    while i < bytes.len()
        invariant
            from <= i,
            first_nul(bytes@, from as int) == first_nul(bytes@, i as int),
            forall|j: int| from <= j < i && j < bytes@.len() ==> bytes@[j] != 0,
        decreases bytes@.len() - i,
    {
        if bytes[i] == 0 {
            return Some(i);
        }
        i += 1;
    }
    None
}

/// Tells whether two strings hold the same characters.
pub fn str_eq(a: &str, b: &str) -> (r: bool)
    ensures
        r == (a@ == b@),
{
    let x = a.as_bytes();
    let y = b.as_bytes();
    proof {
        encode_utf8_decode_utf8(a@);
        encode_utf8_decode_utf8(b@);
    }
    if x.len() != y.len() {
        return false;
    }
    let mut i: usize = 0;
    while i < x.len()
        invariant
            i <= x@.len(),
            x@.len() == y@.len(),
            x@ == encode_utf8(a@),
            y@ == encode_utf8(b@),
            forall|j: int| 0 <= j < i ==> x@[j] == y@[j],
        decreases x@.len() - i,
    {
        if x[i] != y[i] {
            return false;
        }
        i += 1;
    }
    assert(x@ =~= y@);
    true
}

} // verus!
