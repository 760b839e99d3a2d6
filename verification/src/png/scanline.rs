//! Scanlines: defiltering of the image data and reconstruction of pixels.

use crate::error::PngError;
use crate::png::chunk::{ColorType, IHDR};
use crate::png::filter::{
    defiltered, filter_scanline, lemma_defiltered_below_zeros, zero_row, Filter,
};
use crate::png::{Pixel, PlteView, Transparency, TransparencyView, PLTE};
use vstd::prelude::*;
use vstd::slice::{slice_subrange, slice_to_vec};

verus! {

/// One decoded image row.
#[derive(Debug, Clone, PartialEq, Eq)]
pub struct Scanline {
    pub pixels: Vec<Pixel>,
}

impl View for Scanline {
    type V = Seq<Pixel>;

    open spec fn view(&self) -> Seq<Pixel> {
        self.pixels@
    }
}

/// The palette handed to the pixel reconstruction, as plain values.
pub open spec fn palette_view(plte: Option<&PLTE>) -> Option<PlteView> {
    match plte {
        Some(p) => Some(p@),
        None => None,
    }
}

/// The alpha table of an indexed image: empty without a transparency
/// record, and an error where the record is a color key.
pub open spec fn alpha_table(transparency: Option<TransparencyView>) -> Result<Seq<u8>, PngError> {
    match transparency {
        None => Ok(Seq::<u8>::empty()),
        Some(TransparencyView::Alpha(alpha)) => Ok(alpha),
        Some(_) => Err(PngError::InvalidTransparency),
    }
}

/// The pixel that a palette index stands for: the palette entry at the
/// index, with the alpha value at the same index of the alpha table, or
/// fully opaque where the table is shorter.
pub open spec fn indexed_pixel(entries: Seq<(u8, u8, u8)>, alpha: Seq<u8>, index: u8) -> Pixel {
    let entry = entries[index as int];
    Pixel::TruecolorAlpha(
        entry.0,
        entry.1,
        entry.2,
        if index < alpha.len() {
            alpha[index as int]
        } else {
            255u8
        },
    )
}

/// The `k`-th pixel of a defiltered row whose bytes are the channels of its
/// pixels. Rows of the indexed color model are not read this way: see
/// `indexed_pixel`.
pub open spec fn direct_pixel(color_type: ColorType, scanline: Seq<u8>, k: int) -> Pixel {
    match color_type {
        ColorType::Grayscale | ColorType::Indexed => Pixel::Grayscale(scanline[k]),
        ColorType::GrayscaleAlpha => Pixel::GrayscaleAlpha(scanline[2 * k], scanline[2 * k + 1]),
        ColorType::Truecolor => Pixel::Truecolor(
            scanline[3 * k],
            scanline[3 * k + 1],
            scanline[3 * k + 2],
        ),
        ColorType::TruecolorAlpha => Pixel::TruecolorAlpha(
            scanline[4 * k],
            scanline[4 * k + 1],
            scanline[4 * k + 2],
            scanline[4 * k + 3],
        ),
    }
}

/// The pixels of one defiltered row.
///
/// A row of an indexed image holds one palette index for each pixel; it
/// needs a palette, a transparency record that is an alpha table or absent,
/// and indices within the palette. A row of any other color model holds the
/// channels of its pixels one after the other and must end with a whole
/// pixel.
pub open spec fn pixels_of(color_type: ColorType, plte: Option<PlteView>, scanline: Seq<u8>) -> Result<
    Seq<Pixel>,
    PngError,
> {
    if color_type is Indexed {
        match plte {
            None => Err(PngError::MissingPalette),
            Some(palette) => match alpha_table(palette.transparency) {
                Err(e) => Err(e),
                Ok(alpha) => if exists|k: int|
                    0 <= k < scanline.len() && #[trigger] scanline[k] >= palette.entries.len() {
                    Err(PngError::PaletteIndexOutOfRange)
                } else {
                    Ok(
                        Seq::new(
                            scanline.len(),
                            |k: int| indexed_pixel(palette.entries, alpha, scanline[k]),
                        ),
                    )
                },
            },
        }
    } else if scanline.len() % color_type.pixel_width() != 0 {
        Err(PngError::IncompletePixel)
    } else {
        Ok(
            Seq::new(
                scanline.len() / color_type.pixel_width(),
                |k: int| direct_pixel(color_type, scanline, k),
            ),
        )
    }
}

/// Reconstructs the pixels of one defiltered row.
#[verifier::loop_isolation(false)]
pub fn parse_pixels(ihdr: &IHDR, plte: Option<&PLTE>, scanline: &[u8]) -> (r: Result<
    Vec<Pixel>,
    PngError,
>)
    ensures
        pixels_of(ihdr.color_type, palette_view(plte), scanline@) == match r {
            Ok(pixels) => Ok::<Seq<Pixel>, PngError>(pixels@),
            Err(e) => Err(e),
        },
{
    let len: usize = scanline.len();
    let mut pixels: Vec<Pixel> = Vec::new();
    match ihdr.color_type {
        ColorType::Indexed => {
            let palette = match plte {
                Some(p) => p,
                None => return Err(PngError::MissingPalette),
            };
            let alpha: &[u8] = match &palette.transparency {
                None => &[],
                Some(Transparency::Alpha(alpha)) => alpha.as_slice(),
                Some(_) => return Err(PngError::InvalidTransparency),
            };
            assert(palette.transparency is None ==> alpha@ =~= Seq::<u8>::empty());
            let mut i: usize = 0;
            while i < len
                invariant
                    i <= len == scanline@.len(),
                    pixels@.len() == i,
                    forall|k: int| 0 <= k < i ==> scanline@[k] < palette.entries@.len(),
                    forall|k: int|
                        0 <= k < i ==> pixels@[k] == indexed_pixel(
                            palette.entries@,
                            alpha@,
                            scanline@[k],
                        ),
                decreases len - i,
            {
                let index: usize = scanline[i] as usize;
                if index >= palette.entries.len() {
                    return Err(PngError::PaletteIndexOutOfRange);
                }
                let entry = palette.entries[index];
                let a: u8 = if index < alpha.len() {
                    alpha[index]
                } else {
                    255
                };
                pixels.push(Pixel::TruecolorAlpha(entry.0, entry.1, entry.2, a));
                i += 1;
            }
            assert(pixels@ =~= Seq::new(
                scanline@.len(),
                |k: int| indexed_pixel(palette.entries@, alpha@, scanline@[k]),
            ));
            Ok(pixels)
        },
        ColorType::Grayscale => {
            let mut i: usize = 0;
            while i < len
                invariant
                    i <= len == scanline@.len(),
                    pixels@.len() == i,
                    forall|k: int|
                        0 <= k < i ==> pixels@[k] == direct_pixel(
                            ColorType::Grayscale,
                            scanline@,
                            k,
                        ),
                decreases len - i,
            {
                pixels.push(Pixel::Grayscale(scanline[i]));
                i += 1;
            }
            assert(pixels@ =~= Seq::new(
                scanline@.len() / 1,
                |k: int| direct_pixel(ColorType::Grayscale, scanline@, k),
            ));
            Ok(pixels)
        },
        ColorType::GrayscaleAlpha => {
            if len % 2 != 0 {
                return Err(PngError::IncompletePixel);
            }
            let count: usize = len / 2;
            let mut i: usize = 0;
            while i < count
                invariant
                    i <= count == len / 2,
                    len == scanline@.len(),
                    len % 2 == 0,
                    pixels@.len() == i,
                    forall|k: int|
                        0 <= k < i ==> pixels@[k] == direct_pixel(
                            ColorType::GrayscaleAlpha,
                            scanline@,
                            k,
                        ),
                decreases count - i,
            {
                pixels.push(Pixel::GrayscaleAlpha(scanline[2 * i], scanline[2 * i + 1]));
                i += 1;
            }
            assert(pixels@ =~= Seq::new(
                scanline@.len() / 2,
                |k: int| direct_pixel(ColorType::GrayscaleAlpha, scanline@, k),
            ));
            Ok(pixels)
        },
        ColorType::Truecolor => {
            if len % 3 != 0 {
                return Err(PngError::IncompletePixel);
            }
            let count: usize = len / 3;
            let mut i: usize = 0;
            while i < count
                invariant
                    i <= count == len / 3,
                    len == scanline@.len(),
                    len % 3 == 0,
                    pixels@.len() == i,
                    forall|k: int|
                        0 <= k < i ==> pixels@[k] == direct_pixel(
                            ColorType::Truecolor,
                            scanline@,
                            k,
                        ),
                decreases count - i,
            {
                pixels.push(
                    Pixel::Truecolor(scanline[3 * i], scanline[3 * i + 1], scanline[3 * i + 2]),
                );
                i += 1;
            }
            assert(pixels@ =~= Seq::new(
                scanline@.len() / 3,
                |k: int| direct_pixel(ColorType::Truecolor, scanline@, k),
            ));
            Ok(pixels)
        },
        ColorType::TruecolorAlpha => {
            if len % 4 != 0 {
                return Err(PngError::IncompletePixel);
            }
            let count: usize = len / 4;
            let mut i: usize = 0;
            while i < count
                invariant
                    i <= count == len / 4,
                    len == scanline@.len(),
                    len % 4 == 0,
                    pixels@.len() == i,
                    forall|k: int|
                        0 <= k < i ==> pixels@[k] == direct_pixel(
                            ColorType::TruecolorAlpha,
                            scanline@,
                            k,
                        ),
                decreases count - i,
            {
                pixels.push(
                    Pixel::TruecolorAlpha(
                        scanline[4 * i],
                        scanline[4 * i + 1],
                        scanline[4 * i + 2],
                        scanline[4 * i + 3],
                    ),
                );
                i += 1;
            }
            assert(pixels@ =~= Seq::new(
                scanline@.len() / 4,
                |k: int| direct_pixel(ColorType::TruecolorAlpha, scanline@, k),
            ));
            Ok(pixels)
        },
    }
}

/// The filter that a filter-type byte selects.
pub open spec fn filter_of(byte: u8) -> Result<Filter, PngError> {
    if byte == 0 {
        Ok(Filter::NoFilter)
    } else if byte == 1 {
        Ok(Filter::Sub)
    } else if byte == 2 {
        Ok(Filter::Up)
    } else if byte == 3 {
        Ok(Filter::Average)
    } else if byte == 4 {
        Ok(Filter::Paeth)
    } else {
        Err(PngError::InvalidFilterType)
    }
}

/// Decodes a filter-type byte.
pub fn filter_from_byte(byte: u8) -> (r: Result<Filter, PngError>)
    ensures
        r == filter_of(byte),
{
    match byte {
        0 => Ok(Filter::NoFilter),
        1 => Ok(Filter::Sub),
        2 => Ok(Filter::Up),
        3 => Ok(Filter::Average),
        4 => Ok(Filter::Paeth),
        _ => Err(PngError::InvalidFilterType),
    }
}

/// The number of bytes that one row takes in the image data: the
/// filter-type byte, then `bpp` bytes for each of the `width` pixels.
pub open spec fn row_stride(width: u32, bpp: nat) -> nat {
    1 + width as nat * bpp
}

/// The defiltered rows of the image data from offset `start` on, where
/// `previous` is the reconstructed row above the row at `start`.
///
/// Each window of `stride` bytes is one row: its first byte selects the
/// filter, the others are the filtered row. The last window may be short.
/// The first filter-type byte that selects no filter is an error.
pub open spec fn defiltered_rows(
    data: Seq<u8>,
    stride: nat,
    bpp: nat,
    previous: Seq<u8>,
    start: int,
) -> Result<Seq<Seq<u8>>, PngError>
    decreases
            (if start < data.len() {
                data.len() - start
            } else {
                0
            }),
{
    if stride == 0 || start < 0 || start >= data.len() {
        Ok(Seq::<Seq<u8>>::empty())
    } else {
        match filter_of(data[start]) {
            Err(e) => Err(e),
            Ok(filter) => {
                let end = if start + stride <= data.len() {
                    start + stride
                } else {
                    data.len() as int
                };
                let row = defiltered(filter, previous, data.subrange(start + 1, end), bpp);
                match defiltered_rows(data, stride, bpp, row, start + stride) {
                    Err(e) => Err(e),
                    Ok(rest) => Ok(seq![row] + rest),
                }
            },
        }
    }
}

/// The defiltered rows of the image data of an image that is `width`
/// pixels wide. A row of zeros stands above the first row.
pub open spec fn scanline_bytes(data: Seq<u8>, width: u32, bpp: nat) -> Result<
    Seq<Seq<u8>>,
    PngError,
> {
    defiltered_rows(data, row_stride(width, bpp), bpp, zero_row(row_stride(width, bpp)), 0)
}

/// The contents of a list of rows.
pub open spec fn rows_view(rows: Seq<Vec<u8>>) -> Seq<Seq<u8>> {
    Seq::new(rows.len(), |i: int| rows[i]@)
}

/// The rows `done` followed by the outcome `rest` of the rows after them.
pub open spec fn rows_then(done: Seq<Seq<u8>>, rest: Result<Seq<Seq<u8>>, PngError>) -> Result<
    Seq<Seq<u8>>,
    PngError,
> {
    match rest {
        Ok(rows) => Ok(done + rows),
        Err(e) => Err(e),
    }
}

/// Splits the image data into rows and reverses the filter of each row, from
/// the top row down.
pub fn defilter_rows(data: &[u8], width: u32, bytes_per_pixel: usize) -> (r: Result<
    Vec<Vec<u8>>,
    PngError,
>)
    requires
        bytes_per_pixel > 0,
    ensures
        scanline_bytes(data@, width, bytes_per_pixel as nat) == match r {
            Ok(rows) => Ok::<Seq<Seq<u8>>, PngError>(rows_view(rows@)),
            Err(e) => Err(e),
        },
{
    let bpp = bytes_per_pixel;
    let len: usize = data.len();
    assert(width as nat * bpp as nat <= 0xffff_ffff * 0xffff_ffff_ffff_ffff) by (nonlinear_arith)
        requires
            width <= 0xffff_ffff,
            bpp <= 0xffff_ffff_ffff_ffff,
    ;
    let stride: u128 = 1 + width as u128 * bpp as u128;
    let first_len: usize = if stride <= len as u128 {
        stride as usize
    } else {
        len
    };
    let zeros: Vec<u8> = vec![0u8; first_len];
    assert(zeros@ =~= zero_row(first_len as nat));
    let mut rows: Vec<Vec<u8>> = Vec::new();
    let mut start: usize = 0;
    let ghost mut above: Seq<u8> = zero_row(stride as nat);
    assert(rows_view(rows@) + Seq::<Seq<u8>>::empty() =~= Seq::<Seq<u8>>::empty());
    while start < len
        invariant
            bpp == bytes_per_pixel > 0,
            start <= len == data@.len(),
            stride == row_stride(width, bpp as nat),
            first_len <= stride,
            first_len <= len,
            first_len == stride || first_len == len,
            zeros@ == zero_row(first_len as nat),
            rows@.len() == 0 ==> start == 0 && above == zero_row(stride as nat),
            rows@.len() > 0 ==> above == rows@[rows@.len() - 1]@,
            scanline_bytes(data@, width, bpp as nat) == rows_then(
                rows_view(rows@),
                defiltered_rows(data@, stride as nat, bpp as nat, above, start as int),
            ),
        decreases len - start,
    {
        let filter = match filter_from_byte(data[start]) {
            Ok(filter) => filter,
            Err(e) => {
                return Err(e);
            },
        };
        let end: usize = if stride <= (len - start) as u128 {
            start + stride as usize
        } else {
            len
        };
        let mut current: Vec<u8> = slice_to_vec(slice_subrange(data, start + 1, end));
        let ghost raw = current@;
        let count: usize = rows.len();
        if count == 0 {
            proof {
                lemma_defiltered_below_zeros(
                    filter,
                    first_len as nat,
                    stride as nat,
                    raw,
                    bpp as nat,
                );
            }
            filter_scanline(filter, zeros.as_slice(), &mut current, bpp);
        } else {
            filter_scanline(filter, rows[count - 1].as_slice(), &mut current, bpp);
        }
        proof {
            let row = defiltered(filter, above, raw, bpp as nat);
            assert(current@ == row);
            let rest = defiltered_rows(
                data@,
                stride as nat,
                bpp as nat,
                row,
                start as int + stride as int,
            );
            assert(rest == defiltered_rows(data@, stride as nat, bpp as nat, row, end as int));
            assert(rows_view(rows@.push(current)) =~= rows_view(rows@) + seq![row]);
            assert forall|more: Seq<Seq<u8>>|
                rows_view(rows@) + (seq![row] + more) == #[trigger] (rows_view(
                    rows@.push(current),
                ) + more) by {
                assert(rows_view(rows@) + (seq![row] + more) =~= rows_view(rows@.push(current))
                    + more);
            }
            above = row;
        }
        rows.push(current);
        start = end;
    }
    assert(rows_view(rows@) + Seq::<Seq<u8>>::empty() =~= rows_view(rows@));
    Ok(rows)
}

/// The pixels of a list of defiltered rows, row by row. The first row whose
/// pixels cannot be reconstructed gives the error.
pub open spec fn scanlines_of_rows(
    color_type: ColorType,
    plte: Option<PlteView>,
    rows: Seq<Seq<u8>>,
) -> Result<Seq<Seq<Pixel>>, PngError>
    decreases rows.len(),
{
    if rows.len() == 0 {
        Ok(Seq::<Seq<Pixel>>::empty())
    } else {
        match scanlines_of_rows(color_type, plte, rows.drop_last()) {
            Err(e) => Err(e),
            Ok(done) => match pixels_of(color_type, plte, rows.last()) {
                Err(e) => Err(e),
                Ok(pixels) => Ok(done.push(pixels)),
            },
        }
    }
}

/// The scanlines of an image, from its header, its palette and its
/// inflated image data: the data is split into rows and defiltered first;
/// then the pixels of each row are reconstructed.
pub open spec fn scanlines_of(ihdr: IHDR, plte: Option<PlteView>, data: Seq<u8>) -> Result<
    Seq<Seq<Pixel>>,
    PngError,
> {
    match scanline_bytes(data, ihdr.width, ihdr.color_type.pixel_width()) {
        Err(e) => Err(e),
        Ok(rows) => scanlines_of_rows(ihdr.color_type, plte, rows),
    }
}

/// The pixels of a list of scanlines, row by row.
pub open spec fn scanlines_view(scanlines: Seq<Scanline>) -> Seq<Seq<Pixel>> {
    Seq::new(scanlines.len(), |i: int| scanlines[i]@)
}

/// Decodes the inflated image data into scanlines.
pub fn parse_scanlines(ihdr: &IHDR, plte: Option<&PLTE>, data: &[u8]) -> (r: Result<
    Vec<Scanline>,
    PngError,
>)
    ensures
        scanlines_of(*ihdr, palette_view(plte), data@) == match r {
            Ok(scanlines) => Ok::<Seq<Seq<Pixel>>, PngError>(scanlines_view(scanlines@)),
            Err(e) => Err(e),
        },
{
    let rows = match defilter_rows(data, ihdr.width, ihdr.bytes_per_pixel()) {
        Ok(rows) => rows,
        Err(e) => {
            return Err(e);
        },
    };
    let ghost bytes = rows_view(rows@);
    let mut scanlines: Vec<Scanline> = Vec::new();
    let mut i: usize = 0;
    assert(bytes.take(0) =~= Seq::<Seq<u8>>::empty());
    assert(scanlines_view(scanlines@) =~= Seq::<Seq<Pixel>>::empty());
    while i < rows.len()
        invariant
            i <= rows@.len(),
            bytes == rows_view(rows@),
            scanline_bytes(data@, ihdr.width, ihdr.color_type.pixel_width()) == Ok::<
                Seq<Seq<u8>>,
                PngError,
            >(bytes),
            scanlines_of_rows(ihdr.color_type, palette_view(plte), bytes.take(i as int)) == Ok::<
                Seq<Seq<Pixel>>,
                PngError,
            >(scanlines_view(scanlines@)),
        decreases rows@.len() - i,
    {
        proof {
            assert(bytes.take(i + 1).drop_last() =~= bytes.take(i as int));
            assert(bytes.take(i + 1).last() == rows@[i as int]@);
        }
        let pixels = match parse_pixels(ihdr, plte, rows[i].as_slice()) {
            Ok(pixels) => pixels,
            Err(e) => {
                proof {
                    lemma_scanlines_of_rows_fails(
                        ihdr.color_type,
                        palette_view(plte),
                        bytes,
                        i + 1,
                    );
                }
                return Err(e);
            },
        };
        proof {
            assert(scanlines_view(scanlines@.push(Scanline { pixels })) =~= scanlines_view(
                scanlines@,
            ).push(pixels@));
        }
        scanlines.push(Scanline { pixels });
        i += 1;
    }
    assert(bytes.take(i as int) =~= bytes);
    Ok(scanlines)
}

/// Where the pixels of the first `n` rows cannot be reconstructed, those of
/// all rows fail with the same error.
pub proof fn lemma_scanlines_of_rows_fails(
    color_type: ColorType,
    plte: Option<PlteView>,
    rows: Seq<Seq<u8>>,
    n: int,
)
    requires
        0 <= n <= rows.len(),
        scanlines_of_rows(color_type, plte, rows.take(n)) is Err,
    ensures
        scanlines_of_rows(color_type, plte, rows) == scanlines_of_rows(
            color_type,
            plte,
            rows.take(n),
        ),
    decreases rows.len(),
{
    if n == rows.len() {
        assert(rows.take(n) =~= rows);
    } else {
        assert(rows.drop_last().take(n) =~= rows.take(n));
        lemma_scanlines_of_rows_fails(color_type, plte, rows.drop_last(), n);
    }
}

/// Image data that holds `count` whole rows from `start` on defilters to
/// `count` rows, each one byte shorter than the stride.
pub proof fn lemma_defiltered_rows_shape(
    data: Seq<u8>,
    stride: nat,
    bpp: nat,
    previous: Seq<u8>,
    start: int,
    count: nat,
)
    requires
        stride > 0,
        0 <= start,
        start + count * stride == data.len(),
        defiltered_rows(data, stride, bpp, previous, start) is Ok,
    ensures
        defiltered_rows(data, stride, bpp, previous, start)->Ok_0.len() == count,
        forall|i: int|
            0 <= i < count ==> (#[trigger] defiltered_rows(
                data,
                stride,
                bpp,
                previous,
                start,
            )->Ok_0[i]).len() == stride - 1,
    decreases count,
{
    if count > 0 {
        assert(count * stride == (count - 1) * stride + stride) by (nonlinear_arith);
        assert((count - 1) * stride >= 0) by (nonlinear_arith)
            requires
                count >= 1,
        ;
        let filter = filter_of(data[start])->Ok_0;
        let row = defiltered(filter, previous, data.subrange(start + 1, start + stride), bpp);
        lemma_defiltered_rows_shape(data, stride, bpp, row, start + stride, (count - 1) as nat);
    } else {
        assert(count * stride == 0) by (nonlinear_arith)
            requires
                count == 0,
        ;
    }
}

/// A row that holds `width` whole pixels gives `width` pixels.
pub proof fn lemma_pixels_of_len(
    color_type: ColorType,
    plte: Option<PlteView>,
    scanline: Seq<u8>,
    width: nat,
)
    requires
        scanline.len() == width * color_type.pixel_width(),
        pixels_of(color_type, plte, scanline) is Ok,
    ensures
        pixels_of(color_type, plte, scanline)->Ok_0.len() == width,
{
    match color_type {
        ColorType::Grayscale => {
            assert(width * 1 == width);
        },
        ColorType::Indexed => {
            assert(width * 1 == width);
        },
        ColorType::GrayscaleAlpha => {
            assert((width * 2) / 2 == width);
        },
        ColorType::Truecolor => {
            assert((width * 3) / 3 == width);
        },
        ColorType::TruecolorAlpha => {
            assert((width * 4) / 4 == width);
        },
    }
}

/// Rows that hold `width` whole pixels each give as many scanlines of
/// `width` pixels each.
pub proof fn lemma_scanlines_of_rows_shape(
    color_type: ColorType,
    plte: Option<PlteView>,
    rows: Seq<Seq<u8>>,
    width: nat,
)
    requires
        forall|i: int|
            0 <= i < rows.len() ==> (#[trigger] rows[i]).len() == width * color_type.pixel_width(),
        scanlines_of_rows(color_type, plte, rows) is Ok,
    ensures
        scanlines_of_rows(color_type, plte, rows)->Ok_0.len() == rows.len(),
        forall|i: int|
            0 <= i < rows.len() ==> (#[trigger] scanlines_of_rows(
                color_type,
                plte,
                rows,
            )->Ok_0[i]).len() == width,
    decreases rows.len(),
{
    if rows.len() > 0 {
        lemma_scanlines_of_rows_shape(color_type, plte, rows.drop_last(), width);
        lemma_pixels_of_len(color_type, plte, rows.last(), width);
    }
}

/// Where the image data holds exactly `height` rows of `width` pixels, the
/// image has `height` scanlines of `width` pixels each.
pub proof fn lemma_scanlines_shape(ihdr: IHDR, plte: Option<PlteView>, data: Seq<u8>)
    requires
        data.len() == ihdr.height * row_stride(ihdr.width, ihdr.color_type.pixel_width()),
        scanlines_of(ihdr, plte, data) is Ok,
    ensures
        scanlines_of(ihdr, plte, data)->Ok_0.len() == ihdr.height,
        forall|i: int|
            0 <= i < ihdr.height ==> (#[trigger] scanlines_of(ihdr, plte, data)->Ok_0[i]).len()
                == ihdr.width,
{
    let bpp = ihdr.color_type.pixel_width();
    let stride = row_stride(ihdr.width, bpp);
    lemma_defiltered_rows_shape(data, stride, bpp, zero_row(stride), 0, ihdr.height as nat);
    let rows = scanline_bytes(data, ihdr.width, bpp)->Ok_0;
    lemma_scanlines_of_rows_shape(ihdr.color_type, plte, rows, ihdr.width as nat);
}

} // verus!
