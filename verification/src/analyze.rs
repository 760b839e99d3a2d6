//! Channel statistics of decoded pixels, for spotting hidden payloads.

use crate::error::PngError;
use crate::png::chunk::ColorType;
use crate::png::filter::{wrapping_add, wrapping_sum};
use crate::png::{color_type_of, image_pixels, Chunk, Pixel, Png};
use vstd::prelude::*;

verus! {

/// A named byte sequence.
#[derive(Debug, Clone, PartialEq, Eq)]
pub struct Series {
    pub name: String,
    pub values: Vec<u8>,
}

impl View for Series {
    type V = (Seq<char>, Seq<u8>);

    open spec fn view(&self) -> (Seq<char>, Seq<u8>) {
        (self.name@, self.values@)
    }
}

/// The outcome of an analysis.
#[derive(Debug, Clone, PartialEq, Eq)]
pub enum Analysis {
    /// The series of a truecolor image, with or without alpha.
    Channels(Vec<Series>),
    /// The color model of the image is not analyzed.
    Unsupported(ColorType),
}

/// An `Analysis` as plain values.
pub enum AnalysisView {
    Channels(Seq<(Seq<char>, Seq<u8>)>),
    Unsupported(ColorType),
}

/// The contents of a list of series.
pub open spec fn series_view(series: Seq<Series>) -> Seq<(Seq<char>, Seq<u8>)> {
    Seq::new(series.len(), |i: int| series[i]@)
}

impl View for Analysis {
    type V = AnalysisView;

    open spec fn view(&self) -> AnalysisView {
        match *self {
            Analysis::Channels(series) => AnalysisView::Channels(series_view(series@)),
            Analysis::Unsupported(color_type) => AnalysisView::Unsupported(color_type),
        }
    }
}

/// The name of the `k`-th series.
pub open spec fn series_name(k: int) -> Seq<char> {
    if k == 0 {
        "r"@
    } else if k == 1 {
        "g"@
    } else if k == 2 {
        "b"@
    } else if k == 3 {
        "r+g"@
    } else if k == 4 {
        "r+b"@
    } else if k == 5 {
        "g+b"@
    } else if k == 6 {
        "r+g+b"@
    } else if k == 7 {
        "rgb"@
    } else if k == 8 {
        "a"@
    } else {
        "r+g+b+a"@
    }
}

/// What the color channels of one pixel add to the `k`-th series: a
/// channel, a sum of channels modulo 256, or the three channels themselves.
pub open spec fn color_entry(r: u8, g: u8, b: u8, k: int) -> Seq<u8> {
    if k == 0 {
        seq![r]
    } else if k == 1 {
        seq![g]
    } else if k == 2 {
        seq![b]
    } else if k == 3 {
        seq![wrapping_sum(r, g)]
    } else if k == 4 {
        seq![wrapping_sum(r, b)]
    } else if k == 5 {
        seq![wrapping_sum(g, b)]
    } else if k == 6 {
        seq![wrapping_sum(wrapping_sum(r, g), b)]
    } else if k == 7 {
        seq![r, g, b]
    } else {
        Seq::<u8>::empty()
    }
}

/// What one pixel adds to the `k`-th series. Only truecolor pixels add
/// anything, and only those with alpha add to the two alpha series.
pub open spec fn entry(pixel: Pixel, k: int) -> Seq<u8> {
    match pixel {
        Pixel::Truecolor(r, g, b) => color_entry(r, g, b, k),
        Pixel::TruecolorAlpha(r, g, b, a) => if k == 8 {
            seq![a]
        } else if k == 9 {
            seq![wrapping_sum(wrapping_sum(wrapping_sum(r, g), b), a)]
        } else {
            color_entry(r, g, b, k)
        },
        _ => Seq::<u8>::empty(),
    }
}

/// The values of the `k`-th series of a pixel sequence.
pub open spec fn series_values(pixels: Seq<Pixel>, k: int) -> Seq<u8>
    decreases pixels.len(),
{
    if pixels.len() == 0 {
        Seq::<u8>::empty()
    } else {
        series_values(pixels.drop_last(), k) + entry(pixels.last(), k)
    }
}

/// Those of the first `n` series of a pixel sequence that hold a value,
/// each with its name, in order.
pub open spec fn present_series(pixels: Seq<Pixel>, n: int) -> Seq<(Seq<char>, Seq<u8>)>
    decreases n,
{
    if n <= 0 {
        Seq::<(Seq<char>, Seq<u8>)>::empty()
    } else if series_values(pixels, n - 1).len() == 0 {
        present_series(pixels, n - 1)
    } else {
        present_series(pixels, n - 1).push((series_name(n - 1), series_values(pixels, n - 1)))
    }
}

/// The name of the `k`-th series.
fn series_label(k: usize) -> (r: &'static str)
    ensures
        r@ == series_name(k as int),
{
    match k {
        0 => "r",
        1 => "g",
        2 => "b",
        3 => "r+g",
        4 => "r+b",
        5 => "g+b",
        6 => "r+g+b",
        7 => "rgb",
        8 => "a",
        _ => "r+g+b+a",
    }
}

/// Appends to `values` what the color channels of one pixel add to the
/// `k`-th series.
fn push_color_entry(values: &mut Vec<u8>, r: u8, g: u8, b: u8, k: usize)
    ensures
        final(values)@ == old(values)@ + color_entry(r, g, b, k as int),
{
    let ghost before = values@;
    match k {
        0 => values.push(r),
        1 => values.push(g),
        2 => values.push(b),
        3 => values.push(wrapping_add(r, g)),
        4 => values.push(wrapping_add(r, b)),
        5 => values.push(wrapping_add(g, b)),
        6 => values.push(wrapping_add(wrapping_add(r, g), b)),
        7 => {
            values.push(r);
            values.push(g);
            values.push(b);
        },
        _ => {},
    }
    assert(values@ =~= before + color_entry(r, g, b, k as int));
}

/// Appends to `values` what one pixel adds to the `k`-th series.
fn push_entry(values: &mut Vec<u8>, pixel: Pixel, k: usize)
    ensures
        final(values)@ == old(values)@ + entry(pixel, k as int),
{
    let ghost before = values@;
    match pixel {
        Pixel::Truecolor(r, g, b) => push_color_entry(values, r, g, b, k),
        Pixel::TruecolorAlpha(r, g, b, a) => {
            if k == 8 {
                values.push(a);
            } else if k == 9 {
                values.push(wrapping_add(wrapping_add(wrapping_add(r, g), b), a));
            } else {
                push_color_entry(values, r, g, b, k);
            }
        },
        _ => {},
    }
    assert(values@ =~= before + entry(pixel, k as int));
}

/// One more pixel adds its entry to the end of a series.
pub proof fn lemma_series_values_step(pixels: Seq<Pixel>, i: int, k: int)
    requires
        0 <= i < pixels.len(),
    ensures
        series_values(pixels.take(i + 1), k) == series_values(pixels.take(i), k) + entry(
            pixels[i],
            k,
        ),
{
    assert(pixels.take(i + 1).drop_last() =~= pixels.take(i));
}

/// The number of values that one truecolor pixel adds to the `k`-th color
/// series: three to the interleaved series, one to each of the others.
pub open spec fn entries_per_pixel(k: int) -> nat {
    if k == 7 {
        3
    } else {
        1
    }
}

/// Each color series of truecolor pixels, with or without alpha, holds one
/// value for each pixel, and the interleaved series holds three.
pub proof fn lemma_series_values_len(pixels: Seq<Pixel>, k: int)
    requires
        0 <= k < 8,
        forall|i: int|
            0 <= i < pixels.len() ==> (#[trigger] pixels[i] is Truecolor
                || pixels[i] is TruecolorAlpha),
    ensures
        series_values(pixels, k).len() == pixels.len() * entries_per_pixel(k),
    decreases pixels.len(),
{
    if pixels.len() > 0 {
        lemma_series_values_len(pixels.drop_last(), k);
        assert(pixels.last() is Truecolor || pixels.last() is TruecolorAlpha);
        assert(pixels.len() * entries_per_pixel(k) == (pixels.len() - 1) * entries_per_pixel(k)
            + entries_per_pixel(k)) by (nonlinear_arith);
    } else {
        assert(pixels.len() * entries_per_pixel(k) == 0) by (nonlinear_arith)
            requires
                pixels.len() == 0,
        ;
    }
}

/// Computes the values of the `k`-th series of a pixel sequence.
pub fn series(pixels: &Vec<Pixel>, k: usize) -> (r: Vec<u8>)
    ensures
        r@ == series_values(pixels@, k as int),
{
    let mut values: Vec<u8> = Vec::new();
    let mut i: usize = 0;
    assert(pixels@.take(0) =~= Seq::<Pixel>::empty());
    while i < pixels.len()
        invariant
            i <= pixels@.len(),
            values@ == series_values(pixels@.take(i as int), k as int),
        decreases pixels@.len() - i,
    {
        proof {
            lemma_series_values_step(pixels@, i as int, k as int);
        }
        push_entry(&mut values, pixels[i], k);
        i += 1;
    }
    assert(pixels@.take(i as int) =~= pixels@);
    values
}

/// Appends to `list` those of the series `from..to` of a pixel sequence
/// that hold a value.
fn push_present(list: &mut Vec<Series>, pixels: &Vec<Pixel>, from: usize, to: usize)
    requires
        from <= to <= 10,
        series_view(old(list)@) == present_series(pixels@, from as int),
    ensures
        series_view(final(list)@) == present_series(pixels@, to as int),
{
    let mut k: usize = from;
    while k < to
        invariant
            from <= k <= to <= 10,
            series_view(list@) == present_series(pixels@, k as int),
        decreases to - k,
    {
        let values = series(pixels, k);
        if values.len() > 0 {
            let ghost before = list@;
            let item = Series { name: series_label(k).to_owned(), values };
            list.push(item);
            assert(series_view(list@) =~= series_view(before).push(item@));
        }
        k += 1;
    }
}

/// Computes the color series of a pixel sequence: the red, green and blue
/// values, their sums by pairs and all three, and the interleaved channels.
pub fn analyze_truecolor(pixels: &Vec<Pixel>) -> (r: Vec<Series>)
    ensures
        series_view(r@) == present_series(pixels@, 8),
{
    let mut list: Vec<Series> = Vec::new();
    assert(series_view(list@) =~= present_series(pixels@, 0));
    push_present(&mut list, pixels, 0, 8);
    list
}

/// Computes the series of a pixel sequence with alpha: the color series,
/// then the alpha values and the sums of all four channels.
pub fn analyze_truecolor_alpha(pixels: &Vec<Pixel>) -> (r: Vec<Series>)
    ensures
        series_view(r@) == present_series(pixels@, 10),
{
    let mut list = analyze_truecolor(pixels);
    push_present(&mut list, pixels, 8, 10);
    list
}

/// The analysis of an image: the series of its pixels where its color
/// model is truecolor, with or without alpha, and the color model itself
/// where it is another one.
pub open spec fn analysis_of(chunks: Seq<Chunk>) -> Result<AnalysisView, PngError> {
    match image_pixels(chunks) {
        Err(e) => Err(e),
        Ok(pixels) => match color_type_of(chunks) {
            Err(e) => Err(e),
            Ok(ColorType::Truecolor) => Ok(AnalysisView::Channels(present_series(pixels, 8))),
            Ok(ColorType::TruecolorAlpha) => Ok(
                AnalysisView::Channels(present_series(pixels, 10)),
            ),
            Ok(color_type) => Ok(AnalysisView::Unsupported(color_type)),
        },
    }
}

/// Decodes the pixels of an image and computes their channel series.
pub fn analyze(png: &Png) -> (r: Result<Analysis, PngError>)
    ensures
        analysis_of(png.chunks@) == match r {
            Ok(analysis) => Ok::<AnalysisView, PngError>(analysis@),
            Err(e) => Err(e),
        },
{
    let pixels = match png.get_pixels() {
        Ok(pixels) => pixels,
        Err(e) => return Err(e),
    };
    match png.color_type() {
        Err(e) => Err(e),
        Ok(ColorType::Truecolor) => Ok(Analysis::Channels(analyze_truecolor(&pixels))),
        Ok(ColorType::TruecolorAlpha) => Ok(Analysis::Channels(analyze_truecolor_alpha(&pixels))),
        Ok(color_type) => Ok(Analysis::Unsupported(color_type)),
    }
}

} // verus!
