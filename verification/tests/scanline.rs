use pngcheck::error::PngError;
use pngcheck::png::chunk::{ColorType, CompressionMethod, FilterMethod, InterlaceMethod, IHDR};
use pngcheck::png::filter::Filter;
use pngcheck::png::scanline::{
    defilter_rows, filter_from_byte, parse_pixels, parse_scanlines, Scanline,
};
use pngcheck::png::{Pixel, Transparency, PLTE};

fn header(width: u32, height: u32, color_type: ColorType) -> IHDR {
    IHDR {
        width,
        height,
        bit_depth: 8,
        color_type,
        compression_method: CompressionMethod::Deflate,
        filter_method: FilterMethod::Adaptive,
        interlace_method: InterlaceMethod::NoInterlace,
    }
}

#[test]
fn test_parse_pixels() {
    let ihdr = IHDR {
        width: 1,
        height: 1,
        bit_depth: 8,
        color_type: ColorType::Grayscale,
        compression_method: CompressionMethod::Deflate,
        filter_method: FilterMethod::Adaptive,
        interlace_method: InterlaceMethod::NoInterlace,
    };

    let plte = None;
    let scanline = vec![0x01];

    let pixels = parse_pixels(&ihdr, plte, &scanline).unwrap();

    assert_eq!(pixels.len(), 1);
}

#[test]
fn parse_pixels_of_every_direct_color_type() {
    let row = [1u8, 2, 3, 4, 5, 6, 7, 8, 9, 10, 11, 12];
    assert_eq!(
        parse_pixels(&header(12, 1, ColorType::Grayscale), None, &row[..3]),
        Ok(vec![
            Pixel::Grayscale(1),
            Pixel::Grayscale(2),
            Pixel::Grayscale(3)
        ])
    );
    assert_eq!(
        parse_pixels(&header(2, 1, ColorType::GrayscaleAlpha), None, &row[..4]),
        Ok(vec![Pixel::GrayscaleAlpha(1, 2), Pixel::GrayscaleAlpha(3, 4)])
    );
    assert_eq!(
        parse_pixels(&header(2, 1, ColorType::Truecolor), None, &row[..6]),
        Ok(vec![Pixel::Truecolor(1, 2, 3), Pixel::Truecolor(4, 5, 6)])
    );
    assert_eq!(
        parse_pixels(&header(3, 1, ColorType::TruecolorAlpha), None, &row),
        Ok(vec![
            Pixel::TruecolorAlpha(1, 2, 3, 4),
            Pixel::TruecolorAlpha(5, 6, 7, 8),
            Pixel::TruecolorAlpha(9, 10, 11, 12)
        ])
    );
    assert_eq!(
        parse_pixels(&header(0, 1, ColorType::Truecolor), None, &[]),
        Ok(vec![])
    );
}

#[test]
fn parse_pixels_rejects_incomplete_pixels() {
    let row = [1u8, 2, 3, 4, 5];
    assert_eq!(
        parse_pixels(&header(2, 1, ColorType::GrayscaleAlpha), None, &row),
        Err(PngError::IncompletePixel)
    );
    assert_eq!(
        parse_pixels(&header(2, 1, ColorType::Truecolor), None, &row),
        Err(PngError::IncompletePixel)
    );
    assert_eq!(
        parse_pixels(&header(2, 1, ColorType::TruecolorAlpha), None, &row),
        Err(PngError::IncompletePixel)
    );
}

#[test]
fn indexed_pixel_takes_alpha_from_the_table() {
    let plte = PLTE {
        entries: vec![(10, 20, 30)],
        transparency: Some(Transparency::Alpha(vec![0x80])),
    };
    assert_eq!(
        parse_pixels(&header(1, 1, ColorType::Indexed), Some(&plte), &[0]),
        Ok(vec![Pixel::TruecolorAlpha(10, 20, 30, 0x80)])
    );
}

#[test]
fn indexed_pixel_is_opaque_without_alpha() {
    let empty_table = PLTE {
        entries: vec![(10, 20, 30)],
        transparency: Some(Transparency::Alpha(vec![])),
    };
    assert_eq!(
        parse_pixels(&header(1, 1, ColorType::Indexed), Some(&empty_table), &[0]),
        Ok(vec![Pixel::TruecolorAlpha(10, 20, 30, 255)])
    );
    let no_record = PLTE {
        entries: vec![(10, 20, 30)],
        transparency: None,
    };
    assert_eq!(
        parse_pixels(&header(1, 1, ColorType::Indexed), Some(&no_record), &[0]),
        Ok(vec![Pixel::TruecolorAlpha(10, 20, 30, 255)])
    );
}

#[test]
fn indexed_pixels_past_the_alpha_table_are_opaque() {
    let plte = PLTE {
        entries: vec![(1, 2, 3), (4, 5, 6), (7, 8, 9)],
        transparency: Some(Transparency::Alpha(vec![0, 77])),
    };
    assert_eq!(
        parse_pixels(&header(4, 1, ColorType::Indexed), Some(&plte), &[2, 1, 0, 2]),
        Ok(vec![
            Pixel::TruecolorAlpha(7, 8, 9, 255),
            Pixel::TruecolorAlpha(4, 5, 6, 77),
            Pixel::TruecolorAlpha(1, 2, 3, 0),
            Pixel::TruecolorAlpha(7, 8, 9, 255)
        ])
    );
}

#[test]
fn indexed_pixels_with_a_full_alpha_table() {
    let entries: Vec<(u8, u8, u8)> = (0..=255u8).map(|i| (i, i, i)).collect();
    let alpha: Vec<u8> = (0..=255u8).map(|i| 255 - i).collect();
    let plte = PLTE {
        entries,
        transparency: Some(Transparency::Alpha(alpha)),
    };
    assert_eq!(
        parse_pixels(&header(2, 1, ColorType::Indexed), Some(&plte), &[0, 255]),
        Ok(vec![
            Pixel::TruecolorAlpha(0, 0, 0, 255),
            Pixel::TruecolorAlpha(255, 255, 255, 0)
        ])
    );
}

#[test]
fn indexed_pixels_reject_bad_palettes() {
    let ihdr = header(1, 1, ColorType::Indexed);
    assert_eq!(
        parse_pixels(&ihdr, None, &[0]),
        Err(PngError::MissingPalette)
    );
    assert_eq!(parse_pixels(&ihdr, None, &[]), Err(PngError::MissingPalette));
    let plte = PLTE {
        entries: vec![(10, 20, 30)],
        transparency: None,
    };
    assert_eq!(
        parse_pixels(&ihdr, Some(&plte), &[0, 1]),
        Err(PngError::PaletteIndexOutOfRange)
    );
    let keyed = PLTE {
        entries: vec![(10, 20, 30)],
        transparency: Some(Transparency::Grey(5)),
    };
    assert_eq!(
        parse_pixels(&ihdr, Some(&keyed), &[0]),
        Err(PngError::InvalidTransparency)
    );
    let rgb_keyed = PLTE {
        entries: vec![(10, 20, 30)],
        transparency: Some(Transparency::Rgb(1, 2, 3)),
    };
    assert_eq!(
        parse_pixels(&ihdr, Some(&rgb_keyed), &[0]),
        Err(PngError::InvalidTransparency)
    );
}

#[test]
fn filter_type_bytes() {
    assert_eq!(filter_from_byte(0), Ok(Filter::NoFilter));
    assert_eq!(filter_from_byte(1), Ok(Filter::Sub));
    assert_eq!(filter_from_byte(2), Ok(Filter::Up));
    assert_eq!(filter_from_byte(3), Ok(Filter::Average));
    assert_eq!(filter_from_byte(4), Ok(Filter::Paeth));
    for byte in 5..=255u8 {
        assert_eq!(filter_from_byte(byte), Err(PngError::InvalidFilterType));
    }
}

#[test]
fn one_pixel_grayscale_image_with_every_filter() {
    let ihdr = header(1, 1, ColorType::Grayscale);
    for filter in 0..=4u8 {
        for value in [0u8, 1, 0x7f, 0x80, 0xff] {
            let scanlines = parse_scanlines(&ihdr, None, &[filter, value]).unwrap();
            assert_eq!(
                scanlines,
                vec![Scanline {
                    pixels: vec![Pixel::Grayscale(value)]
                }]
            );
            let reconstructed = match scanlines[0].pixels[0] {
                Pixel::Grayscale(l) => l,
                other => panic!("unexpected pixel {:?}", other),
            };
            let predicted = 0u8;
            assert_eq!(reconstructed.wrapping_sub(predicted), value);
        }
    }
}

#[test]
fn defilter_rows_uses_the_row_above() {
    let data = [
        0u8, 10, 20, 30, 40, //
        1, 1, 2, 3, 4, //
        2, 1, 1, 1, 1, //
        3, 2, 2, 2, 2, //
        4, 0, 0, 5, 5,
    ];
    let rows = defilter_rows(&data, 2, 2).unwrap();
    assert_eq!(
        rows,
        vec![
            vec![10, 20, 30, 40],
            vec![1, 2, 4, 6],
            vec![2, 3, 5, 7],
            vec![3, 3, 6, 7],
            vec![3, 3, 11, 12],
        ]
    );
}

#[test]
fn defilter_rows_first_row_lies_below_zeros() {
    assert_eq!(defilter_rows(&[2, 9, 8, 7], 3, 1), Ok(vec![vec![9, 8, 7]]));
    assert_eq!(
        defilter_rows(&[3, 10, 10, 10], 3, 1),
        Ok(vec![vec![10, 15, 17]])
    );
    assert_eq!(
        defilter_rows(&[4, 10, 10, 10], 3, 1),
        Ok(vec![vec![10, 20, 30]])
    );
}

#[test]
fn defilter_rows_edge_cases() {
    assert_eq!(defilter_rows(&[], 3, 1), Ok(vec![]));
    assert_eq!(defilter_rows(&[0], 3, 1), Ok(vec![vec![]]));
    assert_eq!(
        defilter_rows(&[0, 1, 2], 0, 4),
        Ok(vec![vec![], vec![], vec![]])
    );
    assert_eq!(
        defilter_rows(&[0, 1, 2, 3, 1, 5], 3, 1),
        Ok(vec![vec![1, 2, 3], vec![5]])
    );
    assert_eq!(
        defilter_rows(&[1, 1, 1], u32::MAX, 4),
        Ok(vec![vec![1, 1]])
    );
    assert_eq!(
        defilter_rows(&[3, 4, 4, 4, 4, 4], u32::MAX, 2),
        Ok(vec![vec![4, 4, 6, 6, 4]])
    );
}

#[test]
fn defilter_rows_rejects_unknown_filters() {
    assert_eq!(
        defilter_rows(&[5, 1, 2, 3], 3, 1),
        Err(PngError::InvalidFilterType)
    );
    assert_eq!(
        defilter_rows(&[0, 1, 2, 3, 200, 1, 2, 3], 3, 1),
        Err(PngError::InvalidFilterType)
    );
}

#[test]
fn parse_scanlines_truecolor_image() {
    let ihdr = header(2, 2, ColorType::Truecolor);
    let data = [
        0u8, 1, 2, 3, 4, 5, 6, //
        2, 1, 1, 1, 1, 1, 1,
    ];
    assert_eq!(
        parse_scanlines(&ihdr, None, &data),
        Ok(vec![
            Scanline {
                pixels: vec![Pixel::Truecolor(1, 2, 3), Pixel::Truecolor(4, 5, 6)]
            },
            Scanline {
                pixels: vec![Pixel::Truecolor(2, 3, 4), Pixel::Truecolor(5, 6, 7)]
            },
        ])
    );
}

#[test]
fn parse_scanlines_reports_filter_errors_before_pixel_errors() {
    let ihdr = header(1, 2, ColorType::Indexed);
    assert_eq!(
        parse_scanlines(&ihdr, None, &[0, 0, 9, 0]),
        Err(PngError::InvalidFilterType)
    );
    assert_eq!(
        parse_scanlines(&ihdr, None, &[0, 0, 0, 0]),
        Err(PngError::MissingPalette)
    );
    assert_eq!(parse_scanlines(&ihdr, None, &[]), Ok(vec![]));
}

#[test]
fn parse_scanlines_rejects_a_short_last_row() {
    let ihdr = header(2, 2, ColorType::GrayscaleAlpha);
    assert_eq!(
        parse_scanlines(&ihdr, None, &[0, 1, 2, 3, 4, 0, 1, 2, 3]),
        Err(PngError::IncompletePixel)
    );
    assert_eq!(
        parse_scanlines(&ihdr, None, &[0, 1, 2, 3, 4, 1, 1, 2]),
        Ok(vec![
            Scanline {
                pixels: vec![Pixel::GrayscaleAlpha(1, 2), Pixel::GrayscaleAlpha(3, 4)]
            },
            Scanline {
                pixels: vec![Pixel::GrayscaleAlpha(1, 2)]
            },
        ])
    );
}
