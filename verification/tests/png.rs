use pngcheck::error::{ErrorKind, PngError};
use pngcheck::png::chunk::{
    CompressionMethod, FilterMethod, InterlaceMethod, UnitSpecifier,
};
use pngcheck::png::scanline::Scanline;
use pngcheck::png::{
    Chunk, ColorType, Phys, Pixel, Png, SrgbRenderingIntent, Transparency, IHDR, PLTE,
};
use std::io::Write;

fn deflate(data: &[u8]) -> Vec<u8> {
    let mut encoder = flate2::write::ZlibEncoder::new(Vec::new(), flate2::Compression::default());
    encoder.write_all(data).unwrap();
    encoder.finish().unwrap()
}

fn chunk_of(chunk_type: &str, data: &[u8]) -> Chunk {
    let payload = if data.is_empty() {
        None
    } else {
        Some(data.to_vec())
    };
    let mut chunk = Chunk::new(data.len() as u32, String::from(chunk_type), payload, 0);
    chunk.crc = chunk.calculate_checksum();
    chunk
}

fn header_chunk(width: u32, height: u32, color_type: u8) -> Chunk {
    let mut data = Vec::new();
    data.extend_from_slice(&width.to_be_bytes());
    data.extend_from_slice(&height.to_be_bytes());
    data.extend_from_slice(&[8, color_type, 0, 0, 0]);
    chunk_of("IHDR", &data)
}

#[test]
fn test_get_idat_data_single_idat_chunk() {
    let chunk = Chunk::new(
        4,
        String::from("IDAT"),
        Some(vec![0x01, 0x02, 0x03, 0x04]),
        283159080,
    );
    let png = Png::new(vec![chunk], None);

    assert_eq!(png.get_idat_data(), vec![0x01, 0x02, 0x03, 0x04]);
}

#[test]
fn test_get_idat_data_multiple_idat_chunks() {
    let chunk1 = Chunk::new(
        4,
        String::from("IDAT"),
        Some(vec![0x01, 0x02, 0x03, 0x04]),
        283159080,
    );
    let chunk2 = Chunk::new(
        4,
        String::from("IDAT"),
        Some(vec![0x05, 0x06, 0x07, 0x08]),
        283159080,
    );
    let png = Png::new(vec![chunk1, chunk2], None);

    assert_eq!(
        png.get_idat_data(),
        vec![0x01, 0x02, 0x03, 0x04, 0x05, 0x06, 0x07, 0x08]
    );
}

#[test]
fn test_get_idat_data_empty() {
    let png = Png::new(vec![], None);

    assert_eq!(png.get_idat_data(), vec![]);
}

#[test]
fn test_decompress_idat_data() {
    let chunk1 = Chunk::new(
        4,
        String::from("IDAT"),
        Some(vec![
            0x78, 0x5e, 0x2b, 0x49, 0x2d, 0x2e, 0x01, 0x00, 0x04, 0x5d, 0x01, 0xc1,
        ]),
        283159080,
    );

    let png = Png::new(vec![chunk1], None);
    let decompressed_data = png.decompress_idat_data().unwrap();

    assert_eq!(decompressed_data, vec![0x74, 0x65, 0x73, 0x74]);
}

#[test]
fn test_decompress_idat_data_invalid_stream() {
    let chunk1 = Chunk::new(
        4,
        String::from("IDAT"),
        Some(vec![0x01, 0x02, 0x03, 0x04]),
        283159080,
    );

    let png = Png::new(vec![chunk1], None);
    let result = png.decompress_idat_data().map_err(|e| e.kind());
    let expected = Err(ErrorKind::InvalidInput);

    assert_eq!(result, expected);
}

#[test]
fn idat_data_skips_other_chunks_and_absent_payloads() {
    let png = Png::new(
        vec![
            header_chunk(1, 1, 0),
            chunk_of("IDAT", &[1, 2]),
            chunk_of("tEXt", b"k\0v"),
            chunk_of("IDAT", &[]),
            chunk_of("IDAT", &[3]),
            chunk_of("idat", &[9]),
            chunk_of("IEND", &[]),
        ],
        None,
    );
    assert_eq!(png.get_idat_data(), vec![1, 2, 3]);
}

#[test]
fn idat_stream_split_across_chunks_inflates_as_one() {
    let stream = [
        0x78u8, 0x5e, 0x2b, 0x49, 0x2d, 0x2e, 0x01, 0x00, 0x04, 0x5d, 0x01, 0xc1,
    ];
    let png = Png::new(
        vec![chunk_of("IDAT", &stream[..5]), chunk_of("IDAT", &stream[5..])],
        None,
    );
    assert_eq!(png.decompress_idat_data(), Ok(b"test".to_vec()));
}

#[test]
fn accessors_without_chunks() {
    let png = Png::new(vec![], None);
    assert_eq!(png.ihdr(), Ok(None));
    assert_eq!(png.plte(), Ok(None));
    assert_eq!(png.trns(), Ok(None));
    assert_eq!(png.phys(), Ok(None));
    assert_eq!(png.srgb(), Ok(None));
    assert_eq!(png.gama(), Ok(None));
    assert_eq!(png.color_type(), Err(PngError::MissingHeader));
    assert_eq!(png.get_scanlines(), Err(PngError::MissingHeader));
    assert_eq!(png.get_pixels(), Err(PngError::MissingHeader));
    assert!(png.find_chunk("IHDR").is_none());
}

#[test]
fn accessors_decode_the_first_chunk_of_a_type() {
    let png = Png::new(
        vec![
            header_chunk(3, 2, 2),
            chunk_of("gAMA", &[0, 0, 0xb1, 0x8f]),
            chunk_of("gAMA", &[0, 0, 0, 1]),
            chunk_of("sRGB", &[1]),
            chunk_of("pHYs", &[0, 0, 0, 10, 0, 0, 0, 20, 0]),
            header_chunk(9, 9, 6),
        ],
        None,
    );
    assert_eq!(
        png.ihdr(),
        Ok(Some(IHDR {
            width: 3,
            height: 2,
            bit_depth: 8,
            color_type: ColorType::Truecolor,
            compression_method: CompressionMethod::Deflate,
            filter_method: FilterMethod::Adaptive,
            interlace_method: InterlaceMethod::NoInterlace,
        }))
    );
    assert_eq!(png.color_type(), Ok(ColorType::Truecolor));
    assert_eq!(png.gama(), Ok(Some(45455)));
    assert_eq!(png.srgb(), Ok(Some(SrgbRenderingIntent::RelativeColorimetric)));
    assert_eq!(
        png.phys(),
        Ok(Some(Phys {
            pixels_per_unit_x: 10,
            pixels_per_unit_y: 20,
            unit_specifier: UnitSpecifier::Unknown,
        }))
    );
    assert_eq!(png.find_chunk("gAMA").unwrap().payload_bytes(), &[0, 0, 0xb1, 0x8f]);
}

#[test]
fn accessors_report_malformed_chunks() {
    let png = Png::new(
        vec![
            chunk_of("IHDR", &[0, 0, 0, 1, 0, 0, 0, 1, 8, 5, 0, 0, 0]),
            chunk_of("gAMA", &[1]),
            chunk_of("sRGB", &[7]),
            chunk_of("pHYs", &[0, 0, 0, 10, 0, 0, 0, 20, 9]),
            chunk_of("PLTE", &[1, 2]),
        ],
        None,
    );
    assert_eq!(png.ihdr(), Err(PngError::InvalidColorType));
    assert_eq!(png.color_type(), Err(PngError::InvalidColorType));
    assert_eq!(png.gama(), Err(PngError::MalformedChunk));
    assert_eq!(png.srgb(), Err(PngError::InvalidRenderingIntent));
    assert_eq!(png.phys(), Err(PngError::InvalidUnitSpecifier));
    assert_eq!(png.plte(), Err(PngError::MalformedChunk));
    assert_eq!(png.get_scanlines(), Err(PngError::InvalidColorType));
}

#[test]
fn transparency_follows_the_color_type() {
    let trns = chunk_of("tRNS", &[0, 1, 0, 2, 0, 3, 9]);
    let gray = Png::new(vec![header_chunk(1, 1, 0), trns.clone()], None);
    assert_eq!(gray.trns(), Ok(Some(Transparency::Grey(1))));
    let rgb = Png::new(vec![header_chunk(1, 1, 2), trns.clone()], None);
    assert_eq!(rgb.trns(), Ok(Some(Transparency::Rgb(1, 2, 3))));
    let indexed = Png::new(vec![header_chunk(1, 1, 3), trns.clone()], None);
    assert_eq!(
        indexed.trns(),
        Ok(Some(Transparency::Alpha(vec![0, 1, 0, 2, 0, 3, 9])))
    );
    let gray_alpha = Png::new(vec![header_chunk(1, 1, 4), trns.clone()], None);
    assert_eq!(gray_alpha.trns(), Ok(None));
    let rgb_alpha = Png::new(vec![header_chunk(1, 1, 6), trns.clone()], None);
    assert_eq!(rgb_alpha.trns(), Ok(None));
    let no_header = Png::new(vec![trns], None);
    assert_eq!(no_header.trns(), Ok(None));
}

#[test]
fn transparency_rejects_short_keys() {
    let gray = Png::new(vec![header_chunk(1, 1, 0), chunk_of("tRNS", &[7])], None);
    assert_eq!(gray.trns(), Err(PngError::MalformedChunk));
    let rgb = Png::new(
        vec![header_chunk(1, 1, 2), chunk_of("tRNS", &[0, 1, 0, 2, 0])],
        None,
    );
    assert_eq!(rgb.trns(), Err(PngError::MalformedChunk));
    let indexed = Png::new(vec![header_chunk(1, 1, 3), chunk_of("tRNS", &[])], None);
    assert_eq!(indexed.trns(), Ok(Some(Transparency::Alpha(vec![]))));
    let bad_header = Png::new(
        vec![chunk_of("IHDR", &[1]), chunk_of("tRNS", &[0, 1])],
        None,
    );
    assert_eq!(bad_header.trns(), Err(PngError::MalformedChunk));
}

#[test]
fn palette_comes_with_the_transparency() {
    let png = Png::new(
        vec![
            header_chunk(1, 1, 3),
            chunk_of("PLTE", &[10, 20, 30, 40, 50, 60]),
            chunk_of("tRNS", &[0x80]),
        ],
        None,
    );
    assert_eq!(
        png.plte(),
        Ok(Some(PLTE {
            entries: vec![(10, 20, 30), (40, 50, 60)],
            transparency: Some(Transparency::Alpha(vec![0x80])),
        }))
    );
    let plain = Png::new(vec![chunk_of("PLTE", &[1, 2, 3])], None);
    assert_eq!(
        plain.plte(),
        Ok(Some(PLTE {
            entries: vec![(1, 2, 3)],
            transparency: None,
        }))
    );
}

#[test]
fn scanlines_of_a_grayscale_image() {
    let png = Png::new(
        vec![
            header_chunk(2, 2, 0),
            chunk_of("IDAT", &deflate(&[0, 10, 20, 1, 5, 5])),
            chunk_of("IEND", &[]),
        ],
        None,
    );
    assert_eq!(
        png.get_scanlines(),
        Ok(vec![
            Scanline {
                pixels: vec![Pixel::Grayscale(10), Pixel::Grayscale(20)]
            },
            Scanline {
                pixels: vec![Pixel::Grayscale(5), Pixel::Grayscale(10)]
            },
        ])
    );
    assert_eq!(
        png.get_pixels(),
        Ok(vec![
            Pixel::Grayscale(10),
            Pixel::Grayscale(20),
            Pixel::Grayscale(5),
            Pixel::Grayscale(10)
        ])
    );
}

#[test]
fn pixels_of_an_indexed_image() {
    let png = Png::new(
        vec![
            header_chunk(3, 1, 3),
            chunk_of("PLTE", &[10, 20, 30, 40, 50, 60]),
            chunk_of("tRNS", &[0x80]),
            chunk_of("IDAT", &deflate(&[0, 0, 1, 0])),
            chunk_of("IEND", &[]),
        ],
        None,
    );
    assert_eq!(
        png.get_pixels(),
        Ok(vec![
            Pixel::TruecolorAlpha(10, 20, 30, 0x80),
            Pixel::TruecolorAlpha(40, 50, 60, 255),
            Pixel::TruecolorAlpha(10, 20, 30, 0x80)
        ])
    );
}

#[test]
fn pixels_of_images_with_alpha() {
    let gray_alpha = Png::new(
        vec![
            header_chunk(1, 2, 4),
            chunk_of("IDAT", &deflate(&[0, 1, 2, 2, 3, 4])),
        ],
        None,
    );
    assert_eq!(
        gray_alpha.get_pixels(),
        Ok(vec![Pixel::GrayscaleAlpha(1, 2), Pixel::GrayscaleAlpha(4, 6)])
    );
    let rgb_alpha = Png::new(
        vec![
            header_chunk(2, 1, 6),
            chunk_of("IDAT", &deflate(&[1, 1, 2, 3, 4, 250, 250, 250, 250])),
        ],
        None,
    );
    assert_eq!(
        rgb_alpha.get_pixels(),
        Ok(vec![
            Pixel::TruecolorAlpha(1, 2, 3, 4),
            Pixel::TruecolorAlpha(251, 252, 253, 254)
        ])
    );
}

#[test]
fn pixel_pipeline_errors() {
    let no_data = Png::new(vec![header_chunk(1, 1, 0)], None);
    assert_eq!(
        no_data.get_scanlines().map_err(|e| match e {
            PngError::Decompression(e) => Some(e.kind()),
            _ => None,
        }),
        Err(Some(ErrorKind::UnexpectedEof))
    );
    let corrupt = Png::new(
        vec![header_chunk(1, 1, 0), chunk_of("IDAT", &[1, 2, 3, 4])],
        None,
    );
    match corrupt.get_pixels() {
        Err(PngError::Decompression(e)) => assert_eq!(e.kind(), ErrorKind::InvalidInput),
        other => panic!("unexpected result {:?}", other),
    }
    let bad_filter = Png::new(
        vec![header_chunk(1, 1, 0), chunk_of("IDAT", &deflate(&[7, 1]))],
        None,
    );
    assert_eq!(bad_filter.get_pixels(), Err(PngError::InvalidFilterType));
    let no_palette = Png::new(
        vec![header_chunk(1, 1, 3), chunk_of("IDAT", &deflate(&[0, 0]))],
        None,
    );
    assert_eq!(no_palette.get_pixels(), Err(PngError::MissingPalette));
    let bad_index = Png::new(
        vec![
            header_chunk(1, 1, 3),
            chunk_of("PLTE", &[1, 2, 3]),
            chunk_of("IDAT", &deflate(&[0, 1])),
        ],
        None,
    );
    assert_eq!(bad_index.get_pixels(), Err(PngError::PaletteIndexOutOfRange));
    let bad_palette = Png::new(
        vec![
            header_chunk(1, 1, 0),
            chunk_of("PLTE", &[1, 2, 3, 4]),
            chunk_of("IDAT", &deflate(&[0, 1])),
        ],
        None,
    );
    assert_eq!(bad_palette.get_pixels(), Err(PngError::MalformedChunk));
    let short_row = Png::new(
        vec![header_chunk(1, 1, 2), chunk_of("IDAT", &deflate(&[0, 1, 2]))],
        None,
    );
    assert_eq!(short_row.get_pixels(), Err(PngError::IncompletePixel));
}
