//! The PNG container and its parts.

pub mod checksum;
pub mod chunk;
pub mod compression;
pub mod filter;
pub mod scanline;
pub mod text;

pub use crate::error::{DecompressError, ErrorKind, PngError};
pub use crate::png::chunk::{
    Chunk, ColorType, Gama, ParsedChunk, Phys, SrgbRenderingIntent, IHDR,
};
use crate::png::chunk::{
    be_u16, data_view, gama_of, ihdr_of, phys_of, plte_of, srgb_of, u16_from_be, ChunkView,
};
use crate::png::compression::{decompress, decompressed};
use crate::png::scanline::{parse_scanlines, scanlines_of, scanlines_view, Scanline};
use vstd::prelude::*;
use vstd::slice::slice_to_vec;

verus! {

/// One pixel of a decoded image.
#[derive(Debug, Clone, Copy, PartialEq, Eq, Structural)]
pub enum Pixel {
    Grayscale(u8),
    Truecolor(u8, u8, u8),
    GrayscaleAlpha(u8, u8),
    TruecolorAlpha(u8, u8, u8, u8),
}

/// The transparency record of an image: a gray key, an RGB key, or one
/// alpha value for each leading palette entry.
#[derive(Debug, Clone, PartialEq, Eq)]
pub enum Transparency {
    Grey(u16),
    Rgb(u16, u16, u16),
    Alpha(Vec<u8>),
}

/// A `Transparency` as plain values.
pub enum TransparencyView {
    Grey(u16),
    Rgb(u16, u16, u16),
    Alpha(Seq<u8>),
}

impl View for Transparency {
    type V = TransparencyView;

    open spec fn view(&self) -> TransparencyView {
        match *self {
            Transparency::Grey(key) => TransparencyView::Grey(key),
            Transparency::Rgb(r, g, b) => TransparencyView::Rgb(r, g, b),
            Transparency::Alpha(alpha) => TransparencyView::Alpha(alpha@),
        }
    }
}

/// The palette of an image, with the transparency record that goes with it.
#[allow(clippy::upper_case_acronyms)]
#[derive(Debug, Clone, PartialEq, Eq)]
pub struct PLTE {
    pub entries: Vec<(u8, u8, u8)>,
    pub transparency: Option<Transparency>,
}

/// A `PLTE` as plain values.
pub struct PlteView {
    pub entries: Seq<(u8, u8, u8)>,
    pub transparency: Option<TransparencyView>,
}

impl View for PLTE {
    type V = PlteView;

    open spec fn view(&self) -> PlteView {
        PlteView {
            entries: self.entries@,
            transparency: match self.transparency {
                Some(t) => Some(t@),
                None => None,
            },
        }
    }
}

/// The signature that every PNG stream starts with.
pub const HEADER: [u8; 8] = [0x89, 0x50, 0x4E, 0x47, 0x0D, 0x0A, 0x1A, 0x0A];

/// A parsed PNG stream: its chunks in file order, and the bytes that
/// follow the last chunk, if there are any.
#[derive(Debug, Clone, PartialEq, Eq)]
pub struct Png {
    pub chunks: Vec<Chunk>,
    pub extra_bytes: Option<Vec<u8>>,
}

/// The contents of a list of chunks.
pub open spec fn chunks_view(chunks: Seq<Chunk>) -> Seq<ChunkView> {
    Seq::new(chunks.len(), |i: int| chunks[i]@)
}

/// A `Png` as plain values.
pub struct PngView {
    pub chunks: Seq<ChunkView>,
    pub extra_bytes: Option<Seq<u8>>,
}

impl View for Png {
    type V = PngView;

    open spec fn view(&self) -> PngView {
        PngView { chunks: chunks_view(self.chunks@), extra_bytes: data_view(self.extra_bytes) }
    }
}

/// The first chunk at or after position `from` whose type tag is `tag`.
pub open spec fn first_chunk(chunks: Seq<Chunk>, tag: Seq<char>, from: int) -> Option<Chunk>
    decreases chunks.len() - from,
{
    if from < 0 || from >= chunks.len() {
        None
    } else if chunks[from].chunk_type@ == tag {
        Some(chunks[from])
    } else {
        first_chunk(chunks, tag, from + 1)
    }
}

/// The header of an image: that of its first `IHDR` chunk.
pub open spec fn header_of(chunks: Seq<Chunk>) -> Result<Option<IHDR>, PngError> {
    match first_chunk(chunks, "IHDR"@, 0) {
        None => Ok(None),
        Some(chunk) => match ihdr_of(chunk.payload()) {
            Ok(ihdr) => Ok(Some(ihdr)),
            Err(e) => Err(e),
        },
    }
}

/// What the payload of a `tRNS` chunk means for a color model: a gray key
/// in its first two bytes, an RGB key in its first six bytes, an alpha
/// table, or nothing for the color models that carry alpha themselves.
pub open spec fn transparency_for(color_type: ColorType, data: Seq<u8>) -> Result<
    Option<TransparencyView>,
    PngError,
> {
    match color_type {
        ColorType::Grayscale => if data.len() < 2 {
            Err(PngError::MalformedChunk)
        } else {
            Ok(Some(TransparencyView::Grey(be_u16(data[0], data[1]))))
        },
        ColorType::Truecolor => if data.len() < 6 {
            Err(PngError::MalformedChunk)
        } else {
            Ok(
                Some(
                    TransparencyView::Rgb(
                        be_u16(data[0], data[1]),
                        be_u16(data[2], data[3]),
                        be_u16(data[4], data[5]),
                    ),
                ),
            )
        },
        ColorType::Indexed => Ok(Some(TransparencyView::Alpha(data))),
        _ => Ok(None),
    }
}

/// The transparency record of an image: that of its first `tRNS` chunk,
/// read according to the color model of the header. There is none without
/// such a chunk or without a header.
pub open spec fn transparency_of(chunks: Seq<Chunk>) -> Result<Option<TransparencyView>, PngError> {
    match first_chunk(chunks, "tRNS"@, 0) {
        None => Ok(None),
        Some(chunk) => match header_of(chunks) {
            Err(e) => Err(e),
            Ok(None) => Ok(None),
            Ok(Some(ihdr)) => transparency_for(ihdr.color_type, chunk.payload()),
        },
    }
}

/// The palette of an image: that of its first `PLTE` chunk, together with
/// the transparency record of the image.
pub open spec fn palette_of(chunks: Seq<Chunk>) -> Result<Option<PlteView>, PngError> {
    match first_chunk(chunks, "PLTE"@, 0) {
        None => Ok(None),
        Some(chunk) => match plte_of(chunk.payload()) {
            Err(e) => Err(e),
            Ok(entries) => match transparency_of(chunks) {
                Err(e) => Err(e),
                Ok(transparency) => Ok(Some(PlteView { entries, transparency })),
            },
        },
    }
}

/// The physical pixel dimensions of an image: those of its first `pHYs` chunk.
pub open spec fn physical_of(chunks: Seq<Chunk>) -> Result<Option<Phys>, PngError> {
    match first_chunk(chunks, "pHYs"@, 0) {
        None => Ok(None),
        Some(chunk) => match phys_of(chunk.payload()) {
            Ok(phys) => Ok(Some(phys)),
            Err(e) => Err(e),
        },
    }
}

/// The rendering intent of an image: that of its first `sRGB` chunk.
pub open spec fn rendering_intent_of(chunks: Seq<Chunk>) -> Result<
    Option<SrgbRenderingIntent>,
    PngError,
> {
    match first_chunk(chunks, "sRGB"@, 0) {
        None => Ok(None),
        Some(chunk) => match srgb_of(chunk.payload()) {
            Ok(intent) => Ok(Some(intent)),
            Err(e) => Err(e),
        },
    }
}

/// The gamma of an image: that of its first `gAMA` chunk.
pub open spec fn gamma_of(chunks: Seq<Chunk>) -> Result<Option<Gama>, PngError> {
    match first_chunk(chunks, "gAMA"@, 0) {
        None => Ok(None),
        Some(chunk) => match gama_of(chunk.payload()) {
            Ok(gama) => Ok(Some(gama)),
            Err(e) => Err(e),
        },
    }
}

/// The color model of an image: that of its header.
pub open spec fn color_type_of(chunks: Seq<Chunk>) -> Result<ColorType, PngError> {
    match header_of(chunks) {
        Err(e) => Err(e),
        Ok(None) => Err(PngError::MissingHeader),
        Ok(Some(ihdr)) => Ok(ihdr.color_type),
    }
}

/// The compressed image data: the payloads of the `IDAT` chunks, one after
/// the other in file order.
pub open spec fn idat_stream(chunks: Seq<Chunk>) -> Seq<u8>
    decreases chunks.len(),
{
    if chunks.len() == 0 {
        Seq::<u8>::empty()
    } else if chunks.last().chunk_type@ == "IDAT"@ {
        idat_stream(chunks.drop_last()) + chunks.last().payload()
    } else {
        idat_stream(chunks.drop_last())
    }
}

/// The compressed image data of one list of chunks followed by another is
/// that of the first followed by that of the second.
pub proof fn lemma_idat_stream_concat(first: Seq<Chunk>, second: Seq<Chunk>)
    ensures
        idat_stream(first + second) == idat_stream(first) + idat_stream(second),
    decreases second.len(),
{
    if second.len() == 0 {
        assert(first + second =~= first);
        assert(idat_stream(first) + idat_stream(second) =~= idat_stream(first));
    } else {
        assert((first + second).drop_last() =~= first + second.drop_last());
        assert((first + second).last() == second.last());
        lemma_idat_stream_concat(first, second.drop_last());
        assert(idat_stream(first + second) =~= idat_stream(first) + idat_stream(second));
    }
}

/// The scanlines of an image: its image data, inflated and decoded
/// according to its header and its palette.
pub open spec fn image_scanlines(chunks: Seq<Chunk>) -> Result<Seq<Seq<Pixel>>, PngError> {
    match header_of(chunks) {
        Err(e) => Err(e),
        Ok(None) => Err(PngError::MissingHeader),
        Ok(Some(ihdr)) => match decompressed(idat_stream(chunks)) {
            Err(e) => Err(PngError::Decompression(e)),
            Ok(data) => match palette_of(chunks) {
                Err(e) => Err(e),
                Ok(plte) => scanlines_of(ihdr, plte, data),
            },
        },
    }
}

/// The pixels of a list of rows, one row after the other.
pub open spec fn flattened(rows: Seq<Seq<Pixel>>) -> Seq<Pixel>
    decreases rows.len(),
{
    if rows.len() == 0 {
        Seq::<Pixel>::empty()
    } else {
        flattened(rows.drop_last()) + rows.last()
    }
}

/// The pixels of an image, from the top row down and from left to right.
pub open spec fn image_pixels(chunks: Seq<Chunk>) -> Result<Seq<Pixel>, PngError> {
    match image_scanlines(chunks) {
        Err(e) => Err(e),
        Ok(rows) => Ok(flattened(rows)),
    }
}

impl Png {
    /// A container of the given chunks and trailing bytes.
    pub fn new(chunks: Vec<Chunk>, extra_bytes: Option<Vec<u8>>) -> (r: Self)
        ensures
            r.chunks == chunks,
            r.extra_bytes == extra_bytes,
    {
        Self { chunks, extra_bytes }
    }

    /// Finds the first chunk whose type tag is `tag`.
    pub fn find_chunk(&self, tag: &str) -> (r: Option<&Chunk>)
        ensures
            first_chunk(self.chunks@, tag@, 0) == match r {
                Some(chunk) => Some(*chunk),
                None => None,
            },
    {
        let mut i: usize = 0;
        while i < self.chunks.len()
            invariant
                first_chunk(self.chunks@, tag@, 0) == first_chunk(self.chunks@, tag@, i as int),
            decreases self.chunks@.len() - i,
        {
            if self.chunks[i].has_type(tag) {
                return Some(&self.chunks[i]);
            }
            i += 1;
        }
        None
    }

    /// The color model of the image. It is an error for the image to have
    /// no header.
    pub fn color_type(&self) -> (r: Result<ColorType, PngError>)
        ensures
            r == color_type_of(self.chunks@),
    {
        match self.ihdr() {
            Err(e) => Err(e),
            Ok(None) => Err(PngError::MissingHeader),
            Ok(Some(ihdr)) => Ok(ihdr.color_type),
        }
    }

    /// The header of the image, if it has one. A header chunk that cannot
    /// be decoded is an error.
    pub fn ihdr(&self) -> (r: Result<Option<IHDR>, PngError>)
        ensures
            r == header_of(self.chunks@),
    {
        match self.find_chunk("IHDR") {
            None => Ok(None),
            Some(chunk) => match chunk.parse_ihdr() {
                Ok(ihdr) => Ok(Some(ihdr)),
                Err(e) => Err(e),
            },
        }
    }

    /// The palette of the image, if it has one. A palette chunk or a
    /// transparency record that cannot be decoded is an error.
    pub fn plte(&self) -> (r: Result<Option<PLTE>, PngError>)
        ensures
            palette_of(self.chunks@) == match r {
                Ok(Some(plte)) => Ok::<Option<PlteView>, PngError>(Some(plte@)),
                Ok(None) => Ok(None),
                Err(e) => Err(e),
            },
    {
        match self.find_chunk("PLTE") {
            None => Ok(None),
            Some(chunk) => match chunk.parse_plte() {
                Err(e) => Err(e),
                Ok(entries) => match self.trns() {
                    Err(e) => Err(e),
                    Ok(transparency) => Ok(Some(PLTE { entries, transparency })),
                },
            },
        }
    }

    /// The transparency record of the image, if it has one. A color key
    /// that is cut short is an error, and so is a header that cannot be
    /// decoded.
    pub fn trns(&self) -> (r: Result<Option<Transparency>, PngError>)
        ensures
            transparency_of(self.chunks@) == match r {
                Ok(Some(transparency)) => Ok::<Option<TransparencyView>, PngError>(
                    Some(transparency@),
                ),
                Ok(None) => Ok(None),
                Err(e) => Err(e),
            },
    {
        let chunk = match self.find_chunk("tRNS") {
            None => return Ok(None),
            Some(chunk) => chunk,
        };
        let ihdr = match self.ihdr() {
            Err(e) => return Err(e),
            Ok(None) => return Ok(None),
            Ok(Some(ihdr)) => ihdr,
        };
        let data = chunk.payload_bytes();
        match ihdr.color_type {
            ColorType::Grayscale => {
                if data.len() < 2 {
                    return Err(PngError::MalformedChunk);
                }
                Ok(Some(Transparency::Grey(u16_from_be(data[0], data[1]))))
            },
            ColorType::Truecolor => {
                if data.len() < 6 {
                    return Err(PngError::MalformedChunk);
                }
                Ok(
                    Some(
                        Transparency::Rgb(
                            u16_from_be(data[0], data[1]),
                            u16_from_be(data[2], data[3]),
                            u16_from_be(data[4], data[5]),
                        ),
                    ),
                )
            },
            ColorType::Indexed => Ok(Some(Transparency::Alpha(slice_to_vec(data)))),
            _ => Ok(None),
        }
    }

    /// The physical pixel dimensions of the image, if it states them.
    pub fn phys(&self) -> (r: Result<Option<Phys>, PngError>)
        ensures
            r == physical_of(self.chunks@),
    {
        match self.find_chunk("pHYs") {
            None => Ok(None),
            Some(chunk) => match chunk.parse_phys() {
                Ok(phys) => Ok(Some(phys)),
                Err(e) => Err(e),
            },
        }
    }

    /// The rendering intent of the image, if it states one.
    pub fn srgb(&self) -> (r: Result<Option<SrgbRenderingIntent>, PngError>)
        ensures
            r == rendering_intent_of(self.chunks@),
    {
        match self.find_chunk("sRGB") {
            None => Ok(None),
            Some(chunk) => match chunk.parse_srgb() {
                Ok(intent) => Ok(Some(intent)),
                Err(e) => Err(e),
            },
        }
    }

    /// The gamma of the image, if it states one.
    pub fn gama(&self) -> (r: Result<Option<Gama>, PngError>)
        ensures
            r == gamma_of(self.chunks@),
    {
        match self.find_chunk("gAMA") {
            None => Ok(None),
            Some(chunk) => match chunk.parse_gama() {
                Ok(gama) => Ok(Some(gama)),
                Err(e) => Err(e),
            },
        }
    }

    /// The pixels of the image, from the top row down and from left to
    /// right. Fails where `get_scanlines` fails.
    pub fn get_pixels(&self) -> (r: Result<Vec<Pixel>, PngError>)
        ensures
            image_pixels(self.chunks@) == match r {
                Ok(pixels) => Ok::<Seq<Pixel>, PngError>(pixels@),
                Err(e) => Err(e),
            },
    {
        let scanlines = match self.get_scanlines() {
            Ok(scanlines) => scanlines,
            Err(e) => return Err(e),
        };
        let ghost rows = scanlines_view(scanlines@);
        let mut pixels: Vec<Pixel> = Vec::new();
        let mut i: usize = 0;
        assert(rows.take(0) =~= Seq::<Seq<Pixel>>::empty());
        while i < scanlines.len()
            invariant
                i <= scanlines@.len(),
                rows == scanlines_view(scanlines@),
                pixels@ == flattened(rows.take(i as int)),
            decreases scanlines@.len() - i,
        {
            proof {
                assert(rows.take(i + 1).drop_last() =~= rows.take(i as int));
                assert(rows.take(i + 1).last() == scanlines@[i as int].pixels@);
            }
            let row = &scanlines[i].pixels;
            let mut j: usize = 0;
            while j < row.len()
                invariant
                    j <= row@.len(),
                    pixels@ == flattened(rows.take(i as int)) + row@.take(j as int),
                decreases row@.len() - j,
            {
                assert(row@.take(j + 1) =~= row@.take(j as int).push(row@[j as int]));
                pixels.push(row[j]);
                j += 1;
            }
            assert(row@.take(j as int) =~= row@);
            i += 1;
        }
        assert(rows.take(i as int) =~= rows);
        Ok(pixels)
    }

    /// The scanlines of the image, from the top row down.
    ///
    /// Fails, in this order, where the header is missing or cannot be
    /// decoded, where the image data cannot be inflated, where the palette
    /// cannot be decoded, and where the inflated data cannot be decoded
    /// into scanlines.
    pub fn get_scanlines(&self) -> (r: Result<Vec<Scanline>, PngError>)
        ensures
            image_scanlines(self.chunks@) == match r {
                Ok(scanlines) => Ok::<Seq<Seq<Pixel>>, PngError>(scanlines_view(scanlines@)),
                Err(e) => Err(e),
            },
    {
        let ihdr = match self.ihdr() {
            Err(e) => return Err(e),
            Ok(None) => return Err(PngError::MissingHeader),
            Ok(Some(ihdr)) => ihdr,
        };
        let idat_data = match self.decompress_idat_data() {
            Ok(data) => data,
            Err(e) => return Err(PngError::Decompression(e)),
        };
        let plte = match self.plte() {
            Ok(plte) => plte,
            Err(e) => return Err(e),
        };
        parse_scanlines(&ihdr, plte.as_ref(), idat_data.as_slice())
    }

    /// Inflates the compressed image data.
    pub fn decompress_idat_data(&self) -> (r: Result<Vec<u8>, DecompressError>)
        ensures
            decompressed(idat_stream(self.chunks@)) == match r {
                Ok(data) => Ok::<Seq<u8>, DecompressError>(data@),
                Err(e) => Err(e),
            },
    {
        let idat_data = self.get_idat_data();
        decompress(idat_data.as_slice())
    }

    /// Collects the compressed image data from the `IDAT` chunks.
    pub fn get_idat_data(&self) -> (r: Vec<u8>)
        ensures
            r@ == idat_stream(self.chunks@),
    {
        let mut stream: Vec<u8> = Vec::new();
        let mut i: usize = 0;
        assert(self.chunks@.take(0) =~= Seq::<Chunk>::empty());
        while i < self.chunks.len()
            invariant
                i <= self.chunks@.len(),
                stream@ == idat_stream(self.chunks@.take(i as int)),
            decreases self.chunks@.len() - i,
        {
            proof {
                assert(self.chunks@.take(i + 1).drop_last() =~= self.chunks@.take(i as int));
                assert(self.chunks@.take(i + 1).last() == self.chunks@[i as int]);
            }
            if self.chunks[i].has_type("IDAT") {
                let ghost before = stream@;
                stream.extend_from_slice(self.chunks[i].payload_bytes());
                assert(stream@ =~= before + self.chunks@[i as int].payload());
            }
            i += 1;
        }
        assert(self.chunks@.take(i as int) =~= self.chunks@);
        stream
    }
}

} // verus!
