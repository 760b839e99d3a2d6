use pngcheck::error::PngError;
use pngcheck::parse_file;
use pngcheck::png::{Chunk, Pixel, Png, HEADER};
use pngcheck::{frame_chunk, has_signature};
use std::io::Write;

fn deflate(data: &[u8]) -> Vec<u8> {
    let mut encoder = flate2::write::ZlibEncoder::new(Vec::new(), flate2::Compression::default());
    encoder.write_all(data).unwrap();
    encoder.finish().unwrap()
}

fn frame(chunk_type: &[u8; 4], data: &[u8], crc: u32) -> Vec<u8> {
    let mut bytes = Vec::new();
    bytes.extend_from_slice(&(data.len() as u32).to_be_bytes());
    bytes.extend_from_slice(chunk_type);
    bytes.extend_from_slice(data);
    bytes.extend_from_slice(&crc.to_be_bytes());
    bytes
}

fn small_image() -> Vec<u8> {
    let mut bytes = HEADER.to_vec();
    bytes.extend(frame(b"IHDR", &[0, 0, 0, 1, 0, 0, 0, 1, 8, 0, 0, 0, 0], 0x3a7e9b55));
    bytes.extend(frame(b"IDAT", &deflate(&[0, 0x7f]), 7));
    bytes.extend(frame(b"IEND", &[], 0xae426082));
    bytes
}

#[test]
fn signature_bytes() {
    assert_eq!(HEADER, [0x89, b'P', b'N', b'G', 0x0D, 0x0A, 0x1A, 0x0A]);
    assert!(has_signature(&HEADER));
    assert!(has_signature(&small_image()));
    assert!(!has_signature(&HEADER[..7]));
    assert!(!has_signature(&[]));
    for i in 0..8 {
        let mut bytes = HEADER;
        bytes[i] ^= 0x20;
        assert!(!has_signature(&bytes));
    }
}

#[test]
fn parse_file_frames_the_chunks() {
    let png = parse_file(&small_image()).unwrap();
    assert_eq!(png.chunks.len(), 3);
    assert_eq!(
        png.chunks[0],
        Chunk::new(
            13,
            String::from("IHDR"),
            Some(vec![0, 0, 0, 1, 0, 0, 0, 1, 8, 0, 0, 0, 0]),
            0x3a7e9b55
        )
    );
    assert_eq!(png.chunks[1].chunk_type, "IDAT");
    assert_eq!(png.chunks[1].crc, 7);
    assert_eq!(
        png.chunks[2],
        Chunk::new(0, String::from("IEND"), None, 0xae426082)
    );
    assert_eq!(png.extra_bytes, None);
    assert!(png.chunks[0].validate_checksum());
    assert!(!png.chunks[1].validate_checksum());
    assert!(png.chunks[2].validate_checksum());
    assert_eq!(png.get_pixels(), Ok(vec![Pixel::Grayscale(0x7f)]));
}

#[test]
fn parse_file_keeps_the_bytes_after_the_last_chunk() {
    let mut bytes = small_image();
    bytes.extend_from_slice(&[1, 2, 3]);
    let png = parse_file(&bytes).unwrap();
    assert_eq!(png.chunks.len(), 3);
    assert_eq!(png.extra_bytes, Some(vec![1, 2, 3]));

    let mut two_ends = small_image();
    two_ends.extend(frame(b"IEND", &[], 0xae426082));
    let png = parse_file(&two_ends).unwrap();
    assert_eq!(png.chunks.len(), 3);
    assert_eq!(png.extra_bytes, Some(frame(b"IEND", &[], 0xae426082)));
}

#[test]
fn parse_file_of_the_smallest_stream() {
    let mut bytes = HEADER.to_vec();
    bytes.extend(frame(b"IEND", &[], 0));
    assert_eq!(
        parse_file(&bytes),
        Ok(Png::new(
            vec![Chunk::new(0, String::from("IEND"), None, 0)],
            None
        ))
    );
}

#[test]
fn parse_file_rejects_bad_signatures() {
    let mut bytes = small_image();
    bytes[1] = b'Q';
    assert_eq!(parse_file(&bytes), Err(PngError::InvalidSignature));
    assert_eq!(
        parse_file(&[0, 1, 2, 3, 4, 5, 6, 7]),
        Err(PngError::InvalidSignature)
    );
    assert_eq!(parse_file(&[]), Err(PngError::Truncated));
    assert_eq!(parse_file(&HEADER[..7]), Err(PngError::Truncated));
}

#[test]
fn parse_file_rejects_truncated_streams() {
    let bytes = small_image();
    for len in 8..bytes.len() {
        assert_eq!(parse_file(&bytes[..len]), Err(PngError::Truncated));
    }
    let mut no_end = HEADER.to_vec();
    no_end.extend(frame(b"IDAT", &[1, 2, 3], 0));
    assert_eq!(parse_file(&no_end), Err(PngError::Truncated));
    let mut long_length = HEADER.to_vec();
    long_length.extend_from_slice(&[0xff, 0xff, 0xff, 0xff]);
    long_length.extend_from_slice(b"IDAT");
    long_length.extend_from_slice(&[0; 64]);
    assert_eq!(parse_file(&long_length), Err(PngError::Truncated));
}

#[test]
fn parse_file_rejects_invalid_type_tags() {
    let mut bytes = HEADER.to_vec();
    bytes.extend(frame(&[b'I', 0xff, b'A', b'T'], &[1], 0));
    bytes.extend(frame(b"IEND", &[], 0));
    assert_eq!(parse_file(&bytes), Err(PngError::InvalidChunkType));

    let mut short = HEADER.to_vec();
    short.extend_from_slice(&[0, 0, 0, 200, 0xc3, 0x28, b'A', b'T']);
    assert_eq!(parse_file(&short), Err(PngError::InvalidChunkType));
}

#[test]
fn parse_file_accepts_multibyte_type_tags() {
    let mut bytes = HEADER.to_vec();
    bytes.extend(frame(&[0xc3, 0xa9, 0xc3, 0xa9], &[5], 9));
    bytes.extend(frame(b"IEND", &[], 0));
    let png = parse_file(&bytes).unwrap();
    assert_eq!(png.chunks[0].chunk_type, "\u{e9}\u{e9}");
    assert_eq!(png.chunks[0].data, Some(vec![5]));
}

#[test]
fn frame_chunk_at_an_offset() {
    let mut bytes = vec![0xaa, 0xbb];
    bytes.extend(frame(b"gAMA", &[0, 0, 0xb1, 0x8f], 0x0bfc6105));
    bytes.push(0xcc);
    let (chunk, next) = frame_chunk(&bytes, 2).unwrap();
    assert_eq!(next, 18);
    assert_eq!(
        chunk,
        Chunk::new(4, String::from("gAMA"), Some(vec![0, 0, 0xb1, 0x8f]), 0x0bfc6105)
    );
    assert!(chunk.validate_checksum());
    assert_eq!(frame_chunk(&bytes, 3).map(|f| f.1), Err(PngError::Truncated));
    assert_eq!(frame_chunk(&bytes, 19).map(|f| f.1), Err(PngError::Truncated));
    assert_eq!(frame_chunk(&bytes, 20).map(|f| f.1), Err(PngError::Truncated));
    assert_eq!(
        frame_chunk(&bytes, usize::MAX).map(|f| f.1),
        Err(PngError::Truncated)
    );
}
