//! Decoding of the PNG container: chunk framing, checksum validation,
//! chunk payload decoding, scanline defiltering and pixel reconstruction.

pub mod analyze;
pub mod byte_match;
pub mod error;
pub mod png;
pub mod selection;

use crate::error::{outcome, PngError};
use crate::png::chunk::{be_u32_at, read_u32_be, Chunk, ChunkView};
use crate::png::{chunks_view, Png, PngView};
use vstd::prelude::*;
use vstd::slice::{slice_subrange, slice_to_vec};
use vstd::utf8::{decode_utf8, encode_utf8_decode_utf8, valid_utf8};

verus! {

/// The eight bytes of the PNG signature.
pub open spec fn signature() -> Seq<u8> {
    seq![0x89u8, 0x50u8, 0x4Eu8, 0x47u8, 0x0Du8, 0x0Au8, 0x1Au8, 0x0Au8]
}

/// The chunk framed at offset `pos` of a stream, and the offset after it.
///
/// A chunk is a big-endian length, a type tag of four bytes that must be
/// valid UTF-8, a payload of that length, which is absent where the length
/// is zero, and a big-endian checksum.
pub open spec fn framed_chunk(bytes: Seq<u8>, pos: int) -> Result<(ChunkView, int), PngError> {
    if bytes.len() - pos < 8 {
        Err(PngError::Truncated)
    } else if !valid_utf8(bytes.subrange(pos + 4, pos + 8)) {
        Err(PngError::InvalidChunkType)
    } else if bytes.len() - (pos + 8) < be_u32_at(bytes, pos) + 4 {
        Err(PngError::Truncated)
    } else {
        let length = be_u32_at(bytes, pos);
        Ok(
            (
                ChunkView {
                    length,
                    chunk_type: decode_utf8(bytes.subrange(pos + 4, pos + 8)),
                    data: if length == 0 {
                        None
                    } else {
                        Some(bytes.subrange(pos + 8, pos + 8 + length))
                    },
                    crc: be_u32_at(bytes, pos + 8 + length),
                },
                pos + 12 + length,
            ),
        )
    }
}

/// The chunks framed from offset `pos` of a stream up to and including the
/// first `IEND` chunk, and the offset after that chunk.
pub open spec fn framed_chunks(bytes: Seq<u8>, pos: int) -> Result<(Seq<ChunkView>, int), PngError>
    decreases
            (if pos < bytes.len() {
                bytes.len() - pos
            } else {
                0
            }),
{
    match framed_chunk(bytes, pos) {
        Err(e) => Err(e),
        Ok((chunk, next)) => if chunk.chunk_type == "IEND"@ {
            Ok((seq![chunk], next))
        } else {
            match framed_chunks(bytes, next) {
                Err(e) => Err(e),
                Ok((rest, end)) => Ok((seq![chunk] + rest, end)),
            }
        },
    }
}

/// The chunks framed from a stream end with its first `IEND` chunk, and
/// they end within the stream.
pub proof fn lemma_framed_chunks_end(bytes: Seq<u8>, pos: int)
    requires
        0 <= pos,
        framed_chunks(bytes, pos) is Ok,
    ensures
        ({
            let (chunks, end) = framed_chunks(bytes, pos)->Ok_0;
            &&& chunks.len() > 0
            &&& chunks.last().chunk_type == "IEND"@
            &&& forall|i: int| 0 <= i < chunks.len() - 1 ==> (#[trigger] chunks[i]).chunk_type != "IEND"@
            &&& pos < end <= bytes.len()
        }),
    decreases bytes.len() - pos,
{
    let (chunk, next) = framed_chunk(bytes, pos)->Ok_0;
    if chunk.chunk_type != "IEND"@ {
        lemma_framed_chunks_end(bytes, next);
        let (rest, end) = framed_chunks(bytes, next)->Ok_0;
        let chunks = seq![chunk] + rest;
        assert(chunks.last() == rest.last());
        assert forall|i: int| 0 <= i < chunks.len() - 1 implies (#[trigger] chunks[i]).chunk_type
            != "IEND"@ by {
            if i > 0 {
                assert(chunks[i] == rest[i - 1]);
            }
        }
    }
}

/// The container that a byte stream holds: after the signature, the chunks
/// up to and including the first `IEND` chunk; the bytes after it, if there
/// are any, are kept as they are.
pub open spec fn parsed_file(bytes: Seq<u8>) -> Result<PngView, PngError> {
    if bytes.len() < 8 {
        Err(PngError::Truncated)
    } else if bytes.subrange(0, 8) != signature() {
        Err(PngError::InvalidSignature)
    } else {
        match framed_chunks(bytes, 8) {
            Err(e) => Err(e),
            Ok((chunks, end)) => Ok(
                PngView {
                    chunks,
                    extra_bytes: if end == bytes.len() {
                        None
                    } else {
                        Some(bytes.subrange(end, bytes.len() as int))
                    },
                },
            ),
        }
    }
}

/// Tells whether a stream starts with the PNG signature.
pub fn has_signature(bytes: &[u8]) -> (r: bool)
    ensures
        r == (bytes@.len() >= 8 && bytes@.subrange(0, 8) == signature()),
{
    if bytes.len() < 8 {
        return false;
    }
    let r = bytes[0] == 0x89 && bytes[1] == 0x50 && bytes[2] == 0x4E && bytes[3] == 0x47
        && bytes[4] == 0x0D && bytes[5] == 0x0A && bytes[6] == 0x1A && bytes[7] == 0x0A;
    proof {
        let head = bytes@.subrange(0, 8);
        if r {
            assert(head =~= signature());
        } else {
            assert(head[0] == bytes@[0] && head[1] == bytes@[1] && head[2] == bytes@[2] && head[3]
                == bytes@[3] && head[4] == bytes@[4] && head[5] == bytes@[5] && head[6]
                == bytes@[6] && head[7] == bytes@[7]);
        }
    }
    r
}

/// Frames the chunk at offset `pos` of a stream.
pub fn frame_chunk(bytes: &[u8], pos: usize) -> (r: Result<(Chunk, usize), PngError>)
    ensures
        framed_chunk(bytes@, pos as int) == match r {
            Ok((chunk, next)) => Ok::<(ChunkView, int), PngError>((chunk@, next as int)),
            Err(e) => Err(e),
        },
        r matches Ok((chunk, next)) ==> pos < next <= bytes@.len() && chunk.well_formed(),
{
    let len: usize = bytes.len();
    if pos > len || len - pos < 8 {
        return Err(PngError::Truncated);
    }
    let length: u32 = read_u32_be(bytes, pos);
    let chunk_type = match String::from_utf8(slice_to_vec(slice_subrange(bytes, pos + 4, pos + 8))) {
        Ok(s) => s,
        Err(_) => return Err(PngError::InvalidChunkType),
    };
    proof {
        encode_utf8_decode_utf8(chunk_type@);
    }
    if ((len - (pos + 8)) as u64) < length as u64 + 4 {
        return Err(PngError::Truncated);
    }
    let start: usize = pos + 8;
    let end: usize = start + length as usize;
    let data = if length != 0 {
        Some(slice_to_vec(slice_subrange(bytes, start, end)))
    } else {
        None
    };
    let crc: u32 = read_u32_be(bytes, end);
    Ok((Chunk::new(length, chunk_type, data, crc), end + 4))
}

/// A list of chunks followed by the outcome of framing the rest of a stream.
pub open spec fn chunks_then(
    done: Seq<ChunkView>,
    rest: Result<(Seq<ChunkView>, int), PngError>,
) -> Result<(Seq<ChunkView>, int), PngError> {
    match rest {
        Ok((chunks, end)) => Ok((done + chunks, end)),
        Err(e) => Err(e),
    }
}

/// Parses the bytes of a PNG file into its chunks.
pub fn parse_file(bytes: &[u8]) -> (r: Result<Png, PngError>)
    ensures
        outcome(r) == parsed_file(bytes@),
        r matches Ok(png) ==> forall|i: int|
            0 <= i < png.chunks@.len() ==> (#[trigger] png.chunks@[i]).well_formed(),
{
    let len: usize = bytes.len();
    if len < 8 {
        return Err(PngError::Truncated);
    }
    if !has_signature(bytes) {
        return Err(PngError::InvalidSignature);
    }
    let mut chunks: Vec<Chunk> = Vec::new();
    let mut pos: usize = 8;
    let mut done: bool = false;
    assert(chunks_view(chunks@) =~= Seq::<ChunkView>::empty());
    assert forall|rest: Seq<ChunkView>|
        #[trigger] (Seq::<ChunkView>::empty() + rest) == rest by {
        assert(Seq::<ChunkView>::empty() + rest =~= rest);
    }
    while !done
        invariant
            len == bytes@.len() >= 8,
            bytes@.subrange(0, 8) == signature(),
            8 <= pos <= len,
            forall|i: int| 0 <= i < chunks@.len() ==> (#[trigger] chunks@[i]).well_formed(),
            !done ==> framed_chunks(bytes@, 8) == chunks_then(
                chunks_view(chunks@),
                framed_chunks(bytes@, pos as int),
            ),
            done ==> framed_chunks(bytes@, 8) == Ok::<(Seq<ChunkView>, int), PngError>(
                (chunks_view(chunks@), pos as int),
            ),
        decreases len - pos + (if done { 0int } else { 1int }),
    {
        let (chunk, next) = match frame_chunk(bytes, pos) {
            Ok(framed) => framed,
            Err(e) => {
                return Err(e);
            },
        };
        done = chunk.has_type("IEND");
        proof {
            let ghost before = chunks_view(chunks@);
            assert(chunks_view(chunks@.push(chunk)) =~= before + seq![chunk@]);
            assert forall|rest: Seq<ChunkView>|
                before + (seq![chunk@] + rest) == #[trigger] (chunks_view(chunks@.push(chunk))
                    + rest) by {
                assert(before + (seq![chunk@] + rest) =~= chunks_view(chunks@.push(chunk)) + rest);
            }
        }
        chunks.push(chunk);
        pos = next;
    }
    let extra_bytes = if pos < len {
        Some(slice_to_vec(slice_subrange(bytes, pos, len)))
    } else {
        None
    };
    Ok(Png::new(chunks, extra_bytes))
}

} // verus!
