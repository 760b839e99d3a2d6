//! Error values returned by the decoder.

use vstd::prelude::*;

verus! {

/// The class of a failure reported by the zlib decoder.
#[derive(Debug, Clone, Copy, PartialEq, Eq, Structural)]
pub enum ErrorKind {
    /// The compressed stream is corrupt.
    InvalidInput,
    /// The compressed stream ends before it is complete.
    UnexpectedEof,
    /// Any other failure of the decoder.
    Other,
}

/// A failed zlib decompression.
#[derive(Debug, Clone, Copy, PartialEq, Eq, Structural)]
pub struct DecompressError {
    pub kind: ErrorKind,
}

impl DecompressError {
    /// The class of the failure.
    pub fn kind(&self) -> (k: ErrorKind)
        ensures
            k == self.kind,
    {
        self.kind
    }
}

/// Why a PNG byte stream, a chunk or an image could not be decoded.
#[derive(Debug, Clone, Copy, PartialEq, Eq, Structural)]
pub enum PngError {
    /// The stream does not start with the PNG signature.
    InvalidSignature,
    /// The stream ends inside the signature or inside a chunk.
    Truncated,
    /// A chunk's type tag is not valid UTF-8.
    InvalidChunkType,
    /// A chunk payload has the wrong size or lacks a required field.
    MalformedChunk,
    /// The color-type byte of the header is none of 0, 2, 3, 4 and 6.
    InvalidColorType,
    /// The compression-method byte of the header is not 0.
    InvalidCompressionMethod,
    /// The filter-method byte of the header is not 0.
    InvalidFilterMethod,
    /// The interlace-method byte of the header is neither 0 nor 1.
    InvalidInterlaceMethod,
    /// The unit-specifier byte is neither 0 nor 1.
    InvalidUnitSpecifier,
    /// The rendering-intent byte is not in `0..=3`.
    InvalidRenderingIntent,
    /// A textual field of a chunk is not valid UTF-8.
    InvalidText,
    /// The image has no header chunk.
    MissingHeader,
    /// An indexed image has no palette.
    MissingPalette,
    /// The transparency record of an indexed image is not an alpha table.
    InvalidTransparency,
    /// A scanline starts with a filter-type byte outside `0..=4`.
    InvalidFilterType,
    /// A pixel of an indexed image refers past the end of the palette.
    PaletteIndexOutOfRange,
    /// A scanline ends inside a pixel.
    IncompletePixel,
    /// The compressed data could not be inflated.
    Decompression(DecompressError),
}

/// The outcome of an operation with its success value replaced by that
/// value's view.
pub open spec fn outcome<T: View>(r: Result<T, PngError>) -> Result<T::V, PngError> {
    match r {
        Ok(v) => Ok(v@),
        Err(e) => Err(e),
    }
}

} // verus!
