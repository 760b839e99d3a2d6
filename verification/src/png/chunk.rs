//! Chunks and the decoding of their payloads.

use crate::error::{outcome, PngError};
use crate::png::checksum::{crc32, crc32_iso_hdlc};
use crate::png::compression::{decompress, decompressed};
use crate::png::text::{
    decode_text, decoded_text, find_nul, first_nul, inflated_text, inflated_text_of, str_eq,
};
use vstd::prelude::*;
use vstd::slice::{slice_subrange, slice_to_vec};
use vstd::utf8::encode_utf8;

verus! {

/// The color model of an image.
#[derive(Debug, Clone, Copy, PartialEq, Eq, Structural)]
pub enum ColorType {
    Grayscale,
    Truecolor,
    Indexed,
    GrayscaleAlpha,
    TruecolorAlpha,
}

impl ColorType {
    /// The color model that a color-type byte of the header stands for.
    pub open spec fn of_byte(value: u8) -> Result<ColorType, PngError> {
        if value == 0 {
            Ok(ColorType::Grayscale)
        } else if value == 2 {
            Ok(ColorType::Truecolor)
        } else if value == 3 {
            Ok(ColorType::Indexed)
        } else if value == 4 {
            Ok(ColorType::GrayscaleAlpha)
        } else if value == 6 {
            Ok(ColorType::TruecolorAlpha)
        } else {
            Err(PngError::InvalidColorType)
        }
    }

    /// The number of bytes that one pixel of this color model takes in a
    /// scanline, at eight bits per channel.
    pub open spec fn pixel_width(self) -> nat {
        match self {
            ColorType::Grayscale => 1,
            ColorType::Truecolor => 3,
            ColorType::Indexed => 1,
            ColorType::GrayscaleAlpha => 2,
            ColorType::TruecolorAlpha => 4,
        }
    }

    /// Tells whether pixels of this color model carry an alpha channel.
    pub fn has_alpha(&self) -> (r: bool)
        ensures
            r == (*self is GrayscaleAlpha || *self is TruecolorAlpha),
    {
        match self {
            ColorType::GrayscaleAlpha => true,
            ColorType::TruecolorAlpha => true,
            _ => false,
        }
    }

    /// Decodes a color-type byte.
    pub fn from(value: u8) -> (r: Result<ColorType, PngError>)
        ensures
            r == Self::of_byte(value),
    {
        match value {
            0 => Ok(ColorType::Grayscale),
            2 => Ok(ColorType::Truecolor),
            3 => Ok(ColorType::Indexed),
            4 => Ok(ColorType::GrayscaleAlpha),
            6 => Ok(ColorType::TruecolorAlpha),
            _ => Err(PngError::InvalidColorType),
        }
    }
}

/// The color-type bytes 0, 2, 3, 4 and 6 stand for color models whose
/// pixels take 1, 3, 1, 2 and 4 bytes; every other byte is an error.
pub proof fn lemma_color_type_bytes(value: u8)
    ensures
        value == 0 ==> (ColorType::of_byte(value) matches Ok(c) && c.pixel_width() == 1),
        value == 2 ==> (ColorType::of_byte(value) matches Ok(c) && c.pixel_width() == 3),
        value == 3 ==> (ColorType::of_byte(value) matches Ok(c) && c.pixel_width() == 1),
        value == 4 ==> (ColorType::of_byte(value) matches Ok(c) && c.pixel_width() == 2),
        value == 6 ==> (ColorType::of_byte(value) matches Ok(c) && c.pixel_width() == 4),
        !(value == 0 || value == 2 || value == 3 || value == 4 || value == 6)
            ==> ColorType::of_byte(value) == Err::<ColorType, PngError>(
            PngError::InvalidColorType,
        ),
{
}

/// The compression method of the image data.
#[derive(Debug, Clone, Copy, PartialEq, Eq, Structural)]
pub enum CompressionMethod {
    Deflate,
}

impl CompressionMethod {
    /// The compression method that a byte of the header stands for.
    pub open spec fn of_byte(value: u8) -> Result<CompressionMethod, PngError> {
        if value == 0 {
            Ok(CompressionMethod::Deflate)
        } else {
            Err(PngError::InvalidCompressionMethod)
        }
    }

    /// Decodes a compression-method byte.
    pub fn from(value: u8) -> (r: Result<CompressionMethod, PngError>)
        ensures
            r == Self::of_byte(value),
    {
        match value {
            0 => Ok(CompressionMethod::Deflate),
            _ => Err(PngError::InvalidCompressionMethod),
        }
    }
}

/// The filter method of the image data.
#[derive(Debug, Clone, Copy, PartialEq, Eq, Structural)]
pub enum FilterMethod {
    Adaptive,
}

impl FilterMethod {
    /// The filter method that a byte of the header stands for.
    pub open spec fn of_byte(value: u8) -> Result<FilterMethod, PngError> {
        if value == 0 {
            Ok(FilterMethod::Adaptive)
        } else {
            Err(PngError::InvalidFilterMethod)
        }
    }

    /// Decodes a filter-method byte.
    pub fn from(value: u8) -> (r: Result<FilterMethod, PngError>)
        ensures
            r == Self::of_byte(value),
    {
        match value {
            0 => Ok(FilterMethod::Adaptive),
            _ => Err(PngError::InvalidFilterMethod),
        }
    }
}

/// The interlace method of the image data.
#[derive(Debug, Clone, Copy, PartialEq, Eq, Structural)]
pub enum InterlaceMethod {
    NoInterlace,
    Adam7,
}

impl InterlaceMethod {
    /// The interlace method that a byte of the header stands for.
    pub open spec fn of_byte(value: u8) -> Result<InterlaceMethod, PngError> {
        if value == 0 {
            Ok(InterlaceMethod::NoInterlace)
        } else if value == 1 {
            Ok(InterlaceMethod::Adam7)
        } else {
            Err(PngError::InvalidInterlaceMethod)
        }
    }

    /// Decodes an interlace-method byte.
    pub fn from(value: u8) -> (r: Result<InterlaceMethod, PngError>)
        ensures
            r == Self::of_byte(value),
    {
        match value {
            0 => Ok(InterlaceMethod::NoInterlace),
            1 => Ok(InterlaceMethod::Adam7),
            _ => Err(PngError::InvalidInterlaceMethod),
        }
    }
}

/// The unit of the physical pixel dimensions.
#[derive(Debug, Clone, Copy, PartialEq, Eq, Structural)]
pub enum UnitSpecifier {
    Unknown,
    Meter,
}

impl UnitSpecifier {
    /// The unit that a unit-specifier byte stands for.
    pub open spec fn of_byte(value: u8) -> Result<UnitSpecifier, PngError> {
        if value == 0 {
            Ok(UnitSpecifier::Unknown)
        } else if value == 1 {
            Ok(UnitSpecifier::Meter)
        } else {
            Err(PngError::InvalidUnitSpecifier)
        }
    }

    /// Decodes a unit-specifier byte.
    pub fn from(value: u8) -> (r: Result<UnitSpecifier, PngError>)
        ensures
            r == Self::of_byte(value),
    {
        match value {
            0 => Ok(UnitSpecifier::Unknown),
            1 => Ok(UnitSpecifier::Meter),
            _ => Err(PngError::InvalidUnitSpecifier),
        }
    }
}

/// The rendering intent of an sRGB image.
#[derive(Debug, Clone, Copy, PartialEq, Eq, Structural)]
pub enum SrgbRenderingIntent {
    Perceptual,
    RelativeColorimetric,
    Saturation,
    AbsoluteColorimetric,
}

impl SrgbRenderingIntent {
    /// The rendering intent that a byte stands for.
    pub open spec fn of_byte(value: u8) -> Result<SrgbRenderingIntent, PngError> {
        if value == 0 {
            Ok(SrgbRenderingIntent::Perceptual)
        } else if value == 1 {
            Ok(SrgbRenderingIntent::RelativeColorimetric)
        } else if value == 2 {
            Ok(SrgbRenderingIntent::Saturation)
        } else if value == 3 {
            Ok(SrgbRenderingIntent::AbsoluteColorimetric)
        } else {
            Err(PngError::InvalidRenderingIntent)
        }
    }

    /// Decodes a rendering-intent byte.
    pub fn from(value: u8) -> (r: Result<SrgbRenderingIntent, PngError>)
        ensures
            r == Self::of_byte(value),
    {
        match value {
            0 => Ok(SrgbRenderingIntent::Perceptual),
            1 => Ok(SrgbRenderingIntent::RelativeColorimetric),
            2 => Ok(SrgbRenderingIntent::Saturation),
            3 => Ok(SrgbRenderingIntent::AbsoluteColorimetric),
            _ => Err(PngError::InvalidRenderingIntent),
        }
    }
}

/// The fields of the image header.
#[allow(clippy::upper_case_acronyms)]
#[derive(Debug, Clone, Copy, PartialEq, Eq, Structural)]
pub struct IHDR {
    pub width: u32,
    pub height: u32,
    pub bit_depth: u8,
    pub color_type: ColorType,
    pub compression_method: CompressionMethod,
    pub filter_method: FilterMethod,
    pub interlace_method: InterlaceMethod,
}

impl IHDR {
    /// The number of bytes that one pixel takes in a scanline.
    pub fn bytes_per_pixel(&self) -> (r: usize)
        ensures
            r == self.color_type.pixel_width(),
            1 <= r <= 4,
    {
        match self.color_type {
            ColorType::Grayscale => 1,
            ColorType::Truecolor => 3,
            ColorType::Indexed => 1,
            ColorType::GrayscaleAlpha => 2,
            ColorType::TruecolorAlpha => 4,
        }
    }
}

/// The physical pixel dimensions.
#[derive(Debug, Clone, Copy, PartialEq, Eq, Structural)]
pub struct Phys {
    pub pixels_per_unit_x: u32,
    pub pixels_per_unit_y: u32,
    pub unit_specifier: UnitSpecifier,
}

/// The image gamma, scaled by 100000.
pub type Gama = u32;

/// The background color.
#[derive(Debug, Clone, Copy, PartialEq, Eq, Structural)]
pub enum Bkgd {
    Grayscale(u16),
    Rgb(u16, u16, u16),
    Indexed(u8),
}

/// The number of significant bits of each channel.
#[derive(Debug, Clone, Copy, PartialEq, Eq, Structural)]
pub enum Sbit {
    Grayscale(u8),
    Truecolor(u8, u8, u8),
    GrayscaleAlpha(u8, u8),
    TruecolorAlpha(u8, u8, u8, u8),
}

/// International text.
#[derive(Debug, Clone, PartialEq, Eq)]
pub struct Itxt {
    pub keyword: String,
    pub compression_flag: u8,
    pub compression_method: u8,
    pub language_tag: String,
    pub translated_keyword: String,
    pub text: String,
}

/// The fields of an `Itxt` as plain values.
pub struct ItxtView {
    pub keyword: Seq<char>,
    pub compression_flag: u8,
    pub compression_method: u8,
    pub language_tag: Seq<char>,
    pub translated_keyword: Seq<char>,
    pub text: Seq<char>,
}

impl View for Itxt {
    type V = ItxtView;

    open spec fn view(&self) -> ItxtView {
        ItxtView {
            keyword: self.keyword@,
            compression_flag: self.compression_flag,
            compression_method: self.compression_method,
            language_tag: self.language_tag@,
            translated_keyword: self.translated_keyword@,
            text: self.text@,
        }
    }
}

/// Uncompressed text.
#[derive(Debug, Clone, PartialEq, Eq)]
pub struct Text {
    pub keyword: String,
    pub text: String,
}

/// The fields of a `Text` as plain values.
pub struct TextView {
    pub keyword: Seq<char>,
    pub text: Seq<char>,
}

impl View for Text {
    type V = TextView;

    open spec fn view(&self) -> TextView {
        TextView { keyword: self.keyword@, text: self.text@ }
    }
}

/// Compressed text, inflated.
#[derive(Debug, Clone, PartialEq, Eq)]
pub struct Ztxt {
    pub keyword: String,
    pub compression_method: u8,
    pub text: String,
}

/// The fields of a `Ztxt` as plain values.
pub struct ZtxtView {
    pub keyword: Seq<char>,
    pub compression_method: u8,
    pub text: Seq<char>,
}

impl View for Ztxt {
    type V = ZtxtView;

    open spec fn view(&self) -> ZtxtView {
        ZtxtView {
            keyword: self.keyword@,
            compression_method: self.compression_method,
            text: self.text@,
        }
    }
}

/// The big-endian 16-bit value of two bytes.
pub open spec fn be_u16(b0: u8, b1: u8) -> u16 {
    (b0 as int * 0x100 + b1 as int) as u16
}

/// The big-endian 32-bit value of four bytes.
pub open spec fn be_u32(b0: u8, b1: u8, b2: u8, b3: u8) -> u32 {
    (b0 as int * 0x100_0000 + b1 as int * 0x1_0000 + b2 as int * 0x100 + b3 as int) as u32
}

/// The big-endian 32-bit value of the four bytes of `bytes` that start at `at`.
pub open spec fn be_u32_at(bytes: Seq<u8>, at: int) -> u32 {
    be_u32(bytes[at], bytes[at + 1], bytes[at + 2], bytes[at + 3])
}

/// Computes the big-endian 16-bit value of two bytes.
pub fn u16_from_be(b0: u8, b1: u8) -> (r: u16)
    ensures
        r == be_u16(b0, b1),
{
    b0 as u16 * 0x100 + b1 as u16
}

/// Computes the big-endian 32-bit value of four bytes.
pub fn u32_from_be(b0: u8, b1: u8, b2: u8, b3: u8) -> (r: u32)
    ensures
        r == be_u32(b0, b1, b2, b3),
{
    b0 as u32 * 0x100_0000 + b1 as u32 * 0x1_0000 + b2 as u32 * 0x100 + b3 as u32
}

/// Reads the big-endian 32-bit value at offset `at` of `bytes`.
pub fn read_u32_be(bytes: &[u8], at: usize) -> (r: u32)
    requires
        at + 4 <= bytes@.len(),
    ensures
        r == be_u32_at(bytes@, at as int),
{
    u32_from_be(bytes[at], bytes[at + 1], bytes[at + 2], bytes[at + 3])
}

/// The header that a payload of thirteen bytes encodes.
pub open spec fn ihdr_of(payload: Seq<u8>) -> Result<IHDR, PngError> {
    if payload.len() != 13 {
        Err(PngError::MalformedChunk)
    } else {
        match ColorType::of_byte(payload[9]) {
            Err(e) => Err(e),
            Ok(color_type) => match CompressionMethod::of_byte(payload[10]) {
                Err(e) => Err(e),
                Ok(compression_method) => match FilterMethod::of_byte(payload[11]) {
                    Err(e) => Err(e),
                    Ok(filter_method) => match InterlaceMethod::of_byte(payload[12]) {
                        Err(e) => Err(e),
                        Ok(interlace_method) => Ok(
                            IHDR {
                                width: be_u32_at(payload, 0),
                                height: be_u32_at(payload, 4),
                                bit_depth: payload[8],
                                color_type,
                                compression_method,
                                filter_method,
                                interlace_method,
                            },
                        ),
                    },
                },
            },
        }
    }
}

/// The palette that a payload encodes: one entry for each group of three
/// bytes, in order.
pub open spec fn plte_of(payload: Seq<u8>) -> Result<Seq<(u8, u8, u8)>, PngError> {
    if payload.len() % 3 != 0 {
        Err(PngError::MalformedChunk)
    } else {
        Ok(
            Seq::new(
                payload.len() / 3,
                |i: int| (payload[3 * i], payload[3 * i + 1], payload[3 * i + 2]),
            ),
        )
    }
}

/// The physical pixel dimensions that a payload of nine bytes encodes.
pub open spec fn phys_of(payload: Seq<u8>) -> Result<Phys, PngError> {
    if payload.len() != 9 {
        Err(PngError::MalformedChunk)
    } else {
        match UnitSpecifier::of_byte(payload[8]) {
            Err(e) => Err(e),
            Ok(unit_specifier) => Ok(
                Phys {
                    pixels_per_unit_x: be_u32_at(payload, 0),
                    pixels_per_unit_y: be_u32_at(payload, 4),
                    unit_specifier,
                },
            ),
        }
    }
}

/// The rendering intent that a payload of one byte encodes.
pub open spec fn srgb_of(payload: Seq<u8>) -> Result<SrgbRenderingIntent, PngError> {
    if payload.len() != 1 {
        Err(PngError::MalformedChunk)
    } else {
        SrgbRenderingIntent::of_byte(payload[0])
    }
}

/// The gamma value that a payload of four bytes encodes.
pub open spec fn gama_of(payload: Seq<u8>) -> Result<Gama, PngError> {
    if payload.len() != 4 {
        Err(PngError::MalformedChunk)
    } else {
        Ok(be_u32_at(payload, 0))
    }
}

/// The background color that a payload encodes; its shape follows from the
/// payload's length.
pub open spec fn bkgd_of(payload: Seq<u8>) -> Result<Bkgd, PngError> {
    if payload.len() == 1 {
        Ok(Bkgd::Indexed(payload[0]))
    } else if payload.len() == 2 {
        Ok(Bkgd::Grayscale(be_u16(payload[0], payload[1])))
    } else if payload.len() == 6 {
        Ok(
            Bkgd::Rgb(
                be_u16(payload[0], payload[1]),
                be_u16(payload[2], payload[3]),
                be_u16(payload[4], payload[5]),
            ),
        )
    } else {
        Err(PngError::MalformedChunk)
    }
}

/// The significant-bit counts that a payload encodes; their shape follows
/// from the payload's length.
pub open spec fn sbit_of(payload: Seq<u8>) -> Result<Sbit, PngError> {
    if payload.len() == 1 {
        Ok(Sbit::Grayscale(payload[0]))
    } else if payload.len() == 2 {
        Ok(Sbit::GrayscaleAlpha(payload[0], payload[1]))
    } else if payload.len() == 3 {
        Ok(Sbit::Truecolor(payload[0], payload[1], payload[2]))
    } else if payload.len() == 4 {
        Ok(Sbit::TruecolorAlpha(payload[0], payload[1], payload[2], payload[3]))
    } else {
        Err(PngError::MalformedChunk)
    }
}

/// The text chunk that a payload encodes: a keyword up to the first NUL
/// byte, then the text.
pub open spec fn text_of(payload: Seq<u8>) -> Result<TextView, PngError> {
    match first_nul(payload, 0) {
        None => Err(PngError::MalformedChunk),
        Some(k) => match decoded_text(payload.subrange(0, k)) {
            Err(e) => Err(e),
            Ok(keyword) => match decoded_text(payload.subrange(k + 1, payload.len() as int)) {
                Err(e) => Err(e),
                Ok(text) => Ok(TextView { keyword, text }),
            },
        },
    }
}

/// The compressed text chunk that a payload encodes: a keyword up to the
/// first NUL byte, the compression method, then a zlib stream of the text.
pub open spec fn ztxt_of(payload: Seq<u8>) -> Result<ZtxtView, PngError> {
    match first_nul(payload, 0) {
        None => Err(PngError::MalformedChunk),
        Some(k) => match decoded_text(payload.subrange(0, k)) {
            Err(e) => Err(e),
            Ok(keyword) => if payload.len() < k + 2 {
                Err(PngError::MalformedChunk)
            } else {
                match inflated_text_of(
                    decompressed(payload.subrange(k + 2, payload.len() as int)),
                ) {
                    Err(e) => Err(e),
                    Ok(text) => Ok(
                        ZtxtView { keyword, compression_method: payload[k + 1], text },
                    ),
                }
            },
        },
    }
}

/// The text of an international text chunk: `bytes` as they are where the
/// compression flag is zero, else `bytes` inflated.
pub open spec fn itxt_text_of(compression_flag: u8, bytes: Seq<u8>) -> Result<
    Seq<char>,
    PngError,
> {
    if compression_flag == 0 {
        decoded_text(bytes)
    } else {
        inflated_text_of(decompressed(bytes))
    }
}

/// The international text chunk that a payload encodes: a keyword up to
/// the first NUL byte, the compression flag, the compression method, a
/// language tag and a translated keyword, each up to the next NUL byte, then
/// the text.
pub open spec fn itxt_of(payload: Seq<u8>) -> Result<ItxtView, PngError> {
    match first_nul(payload, 0) {
        None => Err(PngError::MalformedChunk),
        Some(k) => match decoded_text(payload.subrange(0, k)) {
            Err(e) => Err(e),
            Ok(keyword) => if payload.len() < k + 3 {
                Err(PngError::MalformedChunk)
            } else {
                match first_nul(payload, k + 3) {
                    None => Err(PngError::MalformedChunk),
                    Some(l) => match decoded_text(payload.subrange(k + 3, l)) {
                        Err(e) => Err(e),
                        Ok(language_tag) => match first_nul(payload, l + 1) {
                            None => Err(PngError::MalformedChunk),
                            Some(t) => match decoded_text(payload.subrange(l + 1, t)) {
                                Err(e) => Err(e),
                                Ok(translated_keyword) => match itxt_text_of(
                                    payload[k + 1],
                                    payload.subrange(t + 1, payload.len() as int),
                                ) {
                                    Err(e) => Err(e),
                                    Ok(text) => Ok(
                                        ItxtView {
                                            keyword,
                                            compression_flag: payload[k + 1],
                                            compression_method: payload[k + 2],
                                            language_tag,
                                            translated_keyword,
                                            text,
                                        },
                                    ),
                                },
                            },
                        },
                    },
                }
            },
        },
    }
}

/// The decoded payload of a chunk.
#[derive(Debug, Clone, PartialEq, Eq)]
pub enum ParsedChunk {
    IHDR(IHDR),
    PLTE(Vec<(u8, u8, u8)>),
    IDAT,
    IEND,
    Trns(Vec<u8>),
    Phys(Phys),
    Srgb(SrgbRenderingIntent),
    Gama(Gama),
    Bkgd(Bkgd),
    Sbit(Sbit),
    Itxt(Itxt),
    Text(Text),
    Ztxt(Ztxt),
    Unknown(String, Option<Vec<u8>>),
}

/// A `ParsedChunk` as plain values.
pub enum ParsedChunkView {
    IHDR(IHDR),
    PLTE(Seq<(u8, u8, u8)>),
    IDAT,
    IEND,
    Trns(Seq<u8>),
    Phys(Phys),
    Srgb(SrgbRenderingIntent),
    Gama(Gama),
    Bkgd(Bkgd),
    Sbit(Sbit),
    Itxt(ItxtView),
    Text(TextView),
    Ztxt(ZtxtView),
    Unknown(Seq<char>, Option<Seq<u8>>),
}

/// The bytes of an optional payload.
pub open spec fn data_view(data: Option<Vec<u8>>) -> Option<Seq<u8>> {
    match data {
        Some(bytes) => Some(bytes@),
        None => None,
    }
}

impl View for ParsedChunk {
    type V = ParsedChunkView;

    open spec fn view(&self) -> ParsedChunkView {
        match *self {
            ParsedChunk::IHDR(ihdr) => ParsedChunkView::IHDR(ihdr),
            ParsedChunk::PLTE(entries) => ParsedChunkView::PLTE(entries@),
            ParsedChunk::IDAT => ParsedChunkView::IDAT,
            ParsedChunk::IEND => ParsedChunkView::IEND,
            ParsedChunk::Trns(data) => ParsedChunkView::Trns(data@),
            ParsedChunk::Phys(phys) => ParsedChunkView::Phys(phys),
            ParsedChunk::Srgb(intent) => ParsedChunkView::Srgb(intent),
            ParsedChunk::Gama(gama) => ParsedChunkView::Gama(gama),
            ParsedChunk::Bkgd(bkgd) => ParsedChunkView::Bkgd(bkgd),
            ParsedChunk::Sbit(sbit) => ParsedChunkView::Sbit(sbit),
            ParsedChunk::Itxt(itxt) => ParsedChunkView::Itxt(itxt@),
            ParsedChunk::Text(text) => ParsedChunkView::Text(text@),
            ParsedChunk::Ztxt(ztxt) => ParsedChunkView::Ztxt(ztxt@),
            ParsedChunk::Unknown(chunk_type, data) => ParsedChunkView::Unknown(
                chunk_type@,
                data_view(data),
            ),
        }
    }
}

/// What a chunk with the type tag `chunk_type` and the payload `data`
/// decodes to. An absent payload counts as an empty one; a chunk of unknown
/// type keeps its tag and its payload as they are.
pub open spec fn parsed(chunk_type: Seq<char>, data: Option<Seq<u8>>) -> Result<
    ParsedChunkView,
    PngError,
> {
    let payload = match data {
        Some(bytes) => bytes,
        None => Seq::<u8>::empty(),
    };
    if chunk_type == "IHDR"@ {
        match ihdr_of(payload) {
            Ok(v) => Ok(ParsedChunkView::IHDR(v)),
            Err(e) => Err(e),
        }
    } else if chunk_type == "PLTE"@ {
        match plte_of(payload) {
            Ok(v) => Ok(ParsedChunkView::PLTE(v)),
            Err(e) => Err(e),
        }
    } else if chunk_type == "IDAT"@ {
        Ok(ParsedChunkView::IDAT)
    } else if chunk_type == "IEND"@ {
        Ok(ParsedChunkView::IEND)
    } else if chunk_type == "tRNS"@ {
        Ok(ParsedChunkView::Trns(payload))
    } else if chunk_type == "pHYs"@ {
        match phys_of(payload) {
            Ok(v) => Ok(ParsedChunkView::Phys(v)),
            Err(e) => Err(e),
        }
    } else if chunk_type == "sRGB"@ {
        match srgb_of(payload) {
            Ok(v) => Ok(ParsedChunkView::Srgb(v)),
            Err(e) => Err(e),
        }
    } else if chunk_type == "gAMA"@ {
        match gama_of(payload) {
            Ok(v) => Ok(ParsedChunkView::Gama(v)),
            Err(e) => Err(e),
        }
    } else if chunk_type == "bKGD"@ {
        match bkgd_of(payload) {
            Ok(v) => Ok(ParsedChunkView::Bkgd(v)),
            Err(e) => Err(e),
        }
    } else if chunk_type == "sBIT"@ {
        match sbit_of(payload) {
            Ok(v) => Ok(ParsedChunkView::Sbit(v)),
            Err(e) => Err(e),
        }
    } else if chunk_type == "iTXt"@ {
        match itxt_of(payload) {
            Ok(v) => Ok(ParsedChunkView::Itxt(v)),
            Err(e) => Err(e),
        }
    } else if chunk_type == "tEXt"@ {
        match text_of(payload) {
            Ok(v) => Ok(ParsedChunkView::Text(v)),
            Err(e) => Err(e),
        }
    } else if chunk_type == "zTXt"@ {
        match ztxt_of(payload) {
            Ok(v) => Ok(ParsedChunkView::Ztxt(v)),
            Err(e) => Err(e),
        }
    } else {
        Ok(ParsedChunkView::Unknown(chunk_type, data))
    }
}

/// A length-prefixed, checksummed record of the PNG container.
#[derive(Debug, Clone, PartialEq, Eq)]
pub struct Chunk {
    pub length: u32,
    pub chunk_type: String,
    pub data: Option<Vec<u8>>,
    pub crc: u32,
}

/// The fields of a `Chunk` as plain values.
pub struct ChunkView {
    pub length: u32,
    pub chunk_type: Seq<char>,
    pub data: Option<Seq<u8>>,
    pub crc: u32,
}

impl View for Chunk {
    type V = ChunkView;

    open spec fn view(&self) -> ChunkView {
        ChunkView {
            length: self.length,
            chunk_type: self.chunk_type@,
            data: data_view(self.data),
            crc: self.crc,
        }
    }
}

impl Chunk {
    /// The payload bytes; none where the payload is absent.
    pub open spec fn payload(&self) -> Seq<u8> {
        match self.data {
            Some(data) => data@,
            None => Seq::<u8>::empty(),
        }
    }

    /// The bytes of the type tag.
    pub open spec fn tag(&self) -> Seq<u8> {
        encode_utf8(self.chunk_type@)
    }

    /// The payload is absent exactly where the declared length is zero, and
    /// a payload that is present has the declared length.
    pub open spec fn well_formed(&self) -> bool {
        match self.data {
            Some(data) => self.length != 0 && data@.len() == self.length,
            None => self.length == 0,
        }
    }

    /// A chunk of the given fields. Nothing is checked: the payload need
    /// not have the declared length, nor the checksum be that of the chunk.
    pub fn new(length: u32, chunk_type: String, data: Option<Vec<u8>>, crc: u32) -> (r: Self)
        ensures
            r.length == length,
            r.chunk_type == chunk_type,
            r.data == data,
            r.crc == crc,
    {
        Self { length, chunk_type, data, crc }
    }

    /// The payload as a slice; empty where the payload is absent.
    pub fn payload_bytes(&self) -> (r: &[u8])
        ensures
            r@ == self.payload(),
    {
        match &self.data {
            Some(data) => data.as_slice(),
            None => &[],
        }
    }

    /// Tells whether the type tag is `tag`.
    pub fn has_type(&self, tag: &str) -> (r: bool)
        ensures
            r == (self.chunk_type@ == tag@),
    {
        str_eq(self.chunk_type.as_str(), tag)
    }

    /// Computes the CRC-32 checksum of the type tag followed by the payload.
    pub fn calculate_checksum(&self) -> (r: u32)
        ensures
            r == crc32_iso_hdlc(self.tag() + self.payload()),
    {
        let mut bytes: Vec<u8> = slice_to_vec(self.chunk_type.as_str().as_bytes());
        bytes.extend_from_slice(self.payload_bytes());
        assert(bytes@ =~= self.tag() + self.payload());
        crc32(bytes.as_slice())
    }

    /// Tells whether the stored checksum is `checksum`.
    pub fn has_checksum(&self, checksum: u32) -> (r: bool)
        ensures
            r == (self.crc == checksum),
    {
        checksum == self.crc
    }

    /// Tells whether the stored checksum is that of the type tag followed
    /// by the payload.
    pub fn validate_checksum(&self) -> (r: bool)
        ensures
            r == (self.crc == crc32_iso_hdlc(self.tag() + self.payload())),
    {
        self.has_checksum(self.calculate_checksum())
    }

    /// Decodes the payload according to the type tag.
    pub fn parse(&self) -> (r: Result<ParsedChunk, PngError>)
        ensures
            outcome(r) == parsed(self.chunk_type@, data_view(self.data)),
    {
        if self.has_type("IHDR") {
            match self.parse_ihdr() {
                Ok(v) => Ok(ParsedChunk::IHDR(v)),
                Err(e) => Err(e),
            }
        } else if self.has_type("PLTE") {
            match self.parse_plte() {
                Ok(v) => Ok(ParsedChunk::PLTE(v)),
                Err(e) => Err(e),
            }
        } else if self.has_type("IDAT") {
            Ok(ParsedChunk::IDAT)
        } else if self.has_type("IEND") {
            Ok(ParsedChunk::IEND)
        } else if self.has_type("tRNS") {
            Ok(ParsedChunk::Trns(slice_to_vec(self.payload_bytes())))
        } else if self.has_type("pHYs") {
            match self.parse_phys() {
                Ok(v) => Ok(ParsedChunk::Phys(v)),
                Err(e) => Err(e),
            }
        } else if self.has_type("sRGB") {
            match self.parse_srgb() {
                Ok(v) => Ok(ParsedChunk::Srgb(v)),
                Err(e) => Err(e),
            }
        } else if self.has_type("gAMA") {
            match self.parse_gama() {
                Ok(v) => Ok(ParsedChunk::Gama(v)),
                Err(e) => Err(e),
            }
        } else if self.has_type("bKGD") {
            match self.parse_bkgd() {
                Ok(v) => Ok(ParsedChunk::Bkgd(v)),
                Err(e) => Err(e),
            }
        } else if self.has_type("sBIT") {
            match self.parse_sbit() {
                Ok(v) => Ok(ParsedChunk::Sbit(v)),
                Err(e) => Err(e),
            }
        } else if self.has_type("iTXt") {
            match self.parse_itxt() {
                Ok(v) => Ok(ParsedChunk::Itxt(v)),
                Err(e) => Err(e),
            }
        } else if self.has_type("tEXt") {
            match self.parse_text() {
                Ok(v) => Ok(ParsedChunk::Text(v)),
                Err(e) => Err(e),
            }
        } else if self.has_type("zTXt") {
            match self.parse_ztxt() {
                Ok(v) => Ok(ParsedChunk::Ztxt(v)),
                Err(e) => Err(e),
            }
        } else {
            let data = match &self.data {
                Some(bytes) => Some(slice_to_vec(bytes.as_slice())),
                None => None,
            };
            Ok(ParsedChunk::Unknown(self.chunk_type.clone(), data))
        }
    }

    /// Decodes the payload as an image header.
    pub fn parse_ihdr(&self) -> (r: Result<IHDR, PngError>)
        ensures
            r == ihdr_of(self.payload()),
    {
        let data = self.payload_bytes();
        if data.len() != 13 {
            return Err(PngError::MalformedChunk);
        }
        let color_type = match ColorType::from(data[9]) {
            Ok(v) => v,
            Err(e) => return Err(e),
        };
        let compression_method = match CompressionMethod::from(data[10]) {
            Ok(v) => v,
            Err(e) => return Err(e),
        };
        let filter_method = match FilterMethod::from(data[11]) {
            Ok(v) => v,
            Err(e) => return Err(e),
        };
        let interlace_method = match InterlaceMethod::from(data[12]) {
            Ok(v) => v,
            Err(e) => return Err(e),
        };
        Ok(
            IHDR {
                width: read_u32_be(data, 0),
                height: read_u32_be(data, 4),
                bit_depth: data[8],
                color_type,
                compression_method,
                filter_method,
                interlace_method,
            },
        )
    }

    /// Decodes the payload as a palette.
    pub fn parse_plte(&self) -> (r: Result<Vec<(u8, u8, u8)>, PngError>)
        ensures
            outcome(r) == plte_of(self.payload()),
    {
        let data = self.payload_bytes();
        if data.len() % 3 != 0 {
            return Err(PngError::MalformedChunk);
        }
        let count: usize = data.len() / 3;
        let mut entries: Vec<(u8, u8, u8)> = Vec::new();
        let mut i: usize = 0;
        while i < count
            invariant
                i <= count,
                count == data@.len() / 3,
                data@.len() % 3 == 0,
                data@.len() <= usize::MAX,
                entries@.len() == i,
                forall|j: int|
                    0 <= j < i ==> entries@[j] == (
                        data@[3 * j],
                        data@[3 * j + 1],
                        data@[3 * j + 2],
                    ),
            decreases count - i,
        {
            entries.push((data[3 * i], data[3 * i + 1], data[3 * i + 2]));
            i += 1;
        }
        assert(entries@ =~= plte_of(data@)->Ok_0);
        Ok(entries)
    }

    /// Decodes the payload as physical pixel dimensions.
    pub fn parse_phys(&self) -> (r: Result<Phys, PngError>)
        ensures
            r == phys_of(self.payload()),
    {
        let data = self.payload_bytes();
        if data.len() != 9 {
            return Err(PngError::MalformedChunk);
        }
        match UnitSpecifier::from(data[8]) {
            Err(e) => Err(e),
            Ok(unit_specifier) => Ok(
                Phys {
                    pixels_per_unit_x: read_u32_be(data, 0),
                    pixels_per_unit_y: read_u32_be(data, 4),
                    unit_specifier,
                },
            ),
        }
    }

    /// Decodes the payload as a rendering intent.
    pub fn parse_srgb(&self) -> (r: Result<SrgbRenderingIntent, PngError>)
        ensures
            r == srgb_of(self.payload()),
    {
        let data = self.payload_bytes();
        if data.len() != 1 {
            return Err(PngError::MalformedChunk);
        }
        SrgbRenderingIntent::from(data[0])
    }

    /// Decodes the payload as a gamma value.
    pub fn parse_gama(&self) -> (r: Result<Gama, PngError>)
        ensures
            r == gama_of(self.payload()),
    {
        let data = self.payload_bytes();
        if data.len() != 4 {
            return Err(PngError::MalformedChunk);
        }
        Ok(read_u32_be(data, 0))
    }

    /// Decodes the payload as a background color.
    pub fn parse_bkgd(&self) -> (r: Result<Bkgd, PngError>)
        ensures
            r == bkgd_of(self.payload()),
    {
        let data = self.payload_bytes();
        if data.len() == 1 {
            Ok(Bkgd::Indexed(data[0]))
        } else if data.len() == 2 {
            Ok(Bkgd::Grayscale(u16_from_be(data[0], data[1])))
        } else if data.len() == 6 {
            Ok(
                Bkgd::Rgb(
                    u16_from_be(data[0], data[1]),
                    u16_from_be(data[2], data[3]),
                    u16_from_be(data[4], data[5]),
                ),
            )
        } else {
            Err(PngError::MalformedChunk)
        }
    }

    /// Decodes the payload as significant-bit counts.
    pub fn parse_sbit(&self) -> (r: Result<Sbit, PngError>)
        ensures
            r == sbit_of(self.payload()),
    {
        let data = self.payload_bytes();
        if data.len() == 1 {
            Ok(Sbit::Grayscale(data[0]))
        } else if data.len() == 2 {
            Ok(Sbit::GrayscaleAlpha(data[0], data[1]))
        } else if data.len() == 3 {
            Ok(Sbit::Truecolor(data[0], data[1], data[2]))
        } else if data.len() == 4 {
            Ok(Sbit::TruecolorAlpha(data[0], data[1], data[2], data[3]))
        } else {
            Err(PngError::MalformedChunk)
        }
    }

    /// Decodes a stretch of the payload as UTF-8 text.
    fn text_field(data: &[u8], from: usize, to: usize) -> (r: Result<String, PngError>)
        requires
            from <= to <= data@.len(),
        ensures
            outcome(r) == decoded_text(data@.subrange(from as int, to as int)),
    {
        decode_text(slice_to_vec(slice_subrange(data, from, to)))
    }

    /// Decodes the payload as an international text chunk.
    pub fn parse_itxt(&self) -> (r: Result<Itxt, PngError>)
        ensures
            outcome(r) == itxt_of(self.payload()),
    {
        let data = self.payload_bytes();
        let keyword_end: usize = match find_nul(data, 0) {
            Some(k) => k,
            None => return Err(PngError::MalformedChunk),
        };
        let keyword = match Self::text_field(data, 0, keyword_end) {
            Ok(s) => s,
            Err(e) => return Err(e),
        };
        if data.len() - keyword_end < 3 {
            return Err(PngError::MalformedChunk);
        }
        let compression_flag: u8 = data[keyword_end + 1];
        let compression_method: u8 = data[keyword_end + 2];
        let language_tag_start: usize = keyword_end + 3;
        let language_tag_end: usize = match find_nul(data, language_tag_start) {
            Some(k) => k,
            None => return Err(PngError::MalformedChunk),
        };
        let language_tag = match Self::text_field(data, language_tag_start, language_tag_end) {
            Ok(s) => s,
            Err(e) => return Err(e),
        };
        let translated_keyword_start: usize = language_tag_end + 1;
        let translated_keyword_end: usize = match find_nul(data, translated_keyword_start) {
            Some(k) => k,
            None => return Err(PngError::MalformedChunk),
        };
        let translated_keyword = match Self::text_field(
            data,
            translated_keyword_start,
            translated_keyword_end,
        ) {
            Ok(s) => s,
            Err(e) => return Err(e),
        };
        let text_start: usize = translated_keyword_end + 1;
        let text_bytes = slice_subrange(data, text_start, data.len());
        let decoded = if compression_flag == 0 {
            decode_text(slice_to_vec(text_bytes))
        } else {
            inflated_text(decompress(text_bytes))
        };
        match decoded {
            Err(e) => Err(e),
            Ok(text) => Ok(
                Itxt {
                    keyword,
                    compression_flag,
                    compression_method,
                    language_tag,
                    translated_keyword,
                    text,
                },
            ),
        }
    }

    /// Decodes the payload as a text chunk.
    pub fn parse_text(&self) -> (r: Result<Text, PngError>)
        ensures
            outcome(r) == text_of(self.payload()),
    {
        let data = self.payload_bytes();
        let keyword_end: usize = match find_nul(data, 0) {
            Some(k) => k,
            None => return Err(PngError::MalformedChunk),
        };
        let keyword = match Self::text_field(data, 0, keyword_end) {
            Ok(s) => s,
            Err(e) => return Err(e),
        };
        let end: usize = data.len();
        match Self::text_field(data, keyword_end + 1, end) {
            Err(e) => Err(e),
            Ok(text) => Ok(Text { keyword, text }),
        }
    }

    /// Decodes the payload as a compressed text chunk.
    pub fn parse_ztxt(&self) -> (r: Result<Ztxt, PngError>)
        ensures
            outcome(r) == ztxt_of(self.payload()),
    {
        let data = self.payload_bytes();
        let keyword_end: usize = match find_nul(data, 0) {
            Some(k) => k,
            None => return Err(PngError::MalformedChunk),
        };
        let keyword = match Self::text_field(data, 0, keyword_end) {
            Ok(s) => s,
            Err(e) => return Err(e),
        };
        if data.len() - keyword_end < 2 {
            return Err(PngError::MalformedChunk);
        }
        let compression_method: u8 = data[keyword_end + 1];
        let stream = slice_subrange(data, keyword_end + 2, data.len());
        match inflated_text(decompress(stream)) {
            Err(e) => Err(e),
            Ok(text) => Ok(Ztxt { keyword, compression_method, text }),
        }
    }
}

} // verus!
