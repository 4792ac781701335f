use pngme::chunk::Chunk;
use pngme::chunk_specs::Chunk as AnyChunk;
use pngme::chunk_type::ChunkType;
use pngme::commands::{decode_message, encode_message, remove_all_matching};
use pngme::error::PngError;
use pngme::ihdr::IHDR;
use pngme::png::Png;

const MESSAGE: &str = "This is where your secret message will be!";

fn rust_chunk() -> Chunk {
    Chunk::new(ChunkType::from_text("RuSt").unwrap(), MESSAGE.as_bytes().to_vec())
}

fn empty_png_bytes() -> Vec<u8> {
    Png::signature().to_vec()
}

fn ihdr_chunk(bit_depth: u8, color_type: u8) -> Chunk {
    let mut data = Vec::new();
    data.extend_from_slice(&640u32.to_be_bytes());
    data.extend_from_slice(&480u32.to_be_bytes());
    data.extend_from_slice(&[bit_depth, color_type, 0, 0, 1]);
    Chunk::new(ChunkType::from_text("IHDR").unwrap(), data)
}

#[test]
fn fresh_chunk_has_known_checksum() {
    let chunk = rust_chunk();
    assert_eq!(chunk.length(), 42);
    assert_eq!(chunk.crc(), 2882656334);
}

#[test]
fn checksum_of_empty_payload() {
    let chunk = Chunk::new(ChunkType::from_text("IEND").unwrap(), Vec::new());
    assert_eq!(chunk.crc(), 0xAE426082);
    assert_eq!(chunk.as_bytes(), vec![0, 0, 0, 0, 73, 69, 78, 68, 0xAE, 0x42, 0x60, 0x82]);
}

#[test]
fn verify_crc_accepts_only_the_right_checksum() {
    let t = ChunkType::from_text("RuSt").unwrap();
    let data = MESSAGE.as_bytes().to_vec();
    assert_eq!(pngme::chunk::verify_crc(&t, &data, 2882656334), Ok(()));
    assert_eq!(pngme::chunk::verify_crc(&t, &data, 2882656333), Err(PngError::ChecksumMismatch));
    assert_eq!(pngme::chunk::check_crc(7, 7), Ok(()));
    assert_eq!(pngme::chunk::check_crc(7, 8), Err(PngError::ChecksumMismatch));
}

#[test]
fn chunk_round_trip() {
    let chunk = rust_chunk();
    let bytes = chunk.as_bytes();
    assert_eq!(bytes.len(), 12 + 42);
    let back = Chunk::parse(&bytes).unwrap();
    assert_eq!(back.length(), chunk.length());
    assert!(back.chunk_type() == chunk.chunk_type());
    assert_eq!(back.data(), chunk.data());
    assert_eq!(back.crc(), chunk.crc());
    assert_eq!(back.as_bytes(), bytes);
}

#[test]
fn flipped_bits_are_detected() {
    let bytes = rust_chunk().as_bytes();
    for k in 8..bytes.len() {
        for bit in 0..8 {
            let mut tampered = bytes.clone();
            tampered[k] ^= 1 << bit;
            assert_eq!(Chunk::parse(&tampered).unwrap_err(), PngError::ChecksumMismatch);
        }
    }
}

#[test]
fn invalid_type_code_in_chunk_is_rejected() {
    let mut bytes = Vec::new();
    bytes.extend_from_slice(&0u32.to_be_bytes());
    bytes.extend_from_slice(b"Ru1t");
    let crc = crc::Crc::<u32>::new(&crc::CRC_32_ISO_HDLC).checksum(b"Ru1t");
    bytes.extend_from_slice(&crc.to_be_bytes());
    assert_eq!(Chunk::parse(&bytes).unwrap_err(), PngError::InvalidTypeCode);
}

#[test]
fn truncated_chunks_are_rejected() {
    let bytes = rust_chunk().as_bytes();
    assert_eq!(Chunk::parse(&bytes[..11]).unwrap_err(), PngError::TruncatedInput);
    assert_eq!(Chunk::parse(&bytes[..30]).unwrap_err(), PngError::TruncatedInput);
    assert_eq!(Chunk::parse(&bytes[..53]).unwrap_err(), PngError::TruncatedInput);
}

#[test]
fn non_utf8_payload_is_not_text() {
    let chunk = Chunk::new(ChunkType::from_text("ruSt").unwrap(), vec![0xff, 0xfe]);
    assert_eq!(chunk.data_as_string().unwrap_err(), PngError::NotUtf8);
}

#[test]
fn header_combination_table() {
    assert_eq!(IHDR::from_chunk(&ihdr_chunk(4, 2)).err(), Some(PngError::InvalidColorBitDepthCombination));
    assert!(IHDR::from_chunk(&ihdr_chunk(8, 2)).is_ok());
    assert!(IHDR::from_chunk(&ihdr_chunk(16, 0)).is_ok());
    assert!(IHDR::from_chunk(&ihdr_chunk(1, 3)).is_ok());
    assert_eq!(IHDR::from_chunk(&ihdr_chunk(16, 3)).err(), Some(PngError::InvalidColorBitDepthCombination));
    assert_eq!(IHDR::from_chunk(&ihdr_chunk(8, 5)).err(), Some(PngError::InvalidColorBitDepthCombination));
    assert!(IHDR::is_valid_combination(6, 16));
    assert!(!IHDR::is_valid_combination(4, 4));
}

#[test]
fn header_fields_are_decoded() {
    let header = IHDR::from_chunk(&ihdr_chunk(8, 6)).unwrap();
    assert_eq!(header.width(), 640);
    assert_eq!(header.height(), 480);
    assert_eq!(header.bit_depth(), 8);
    assert_eq!(header.color_type(), 6);
    assert_eq!(header.compression_method(), 0);
    assert_eq!(header.filter_method(), 0);
    assert_eq!(header.interlace_method(), 1);
    assert_eq!(header.length(), 13);
    assert_eq!(header.chunk_type().to_string(), "IHDR");
    assert_eq!(header.data().len(), 13);
    assert_eq!(header.crc(), ihdr_chunk(8, 6).crc());
}

#[test]
fn header_view_checks_type_then_length() {
    assert_eq!(IHDR::from_chunk(&rust_chunk()).err(), Some(PngError::WrongTypeCode));
    let short = Chunk::new(ChunkType::from_text("IHDR").unwrap(), vec![0; 12]);
    assert_eq!(IHDR::from_chunk(&short).err(), Some(PngError::WrongLength));
}

#[test]
fn container_round_trip() {
    let png = Png::from_chunks(vec![ihdr_chunk(8, 2), rust_chunk(), rust_chunk()]);
    let bytes = png.as_bytes();
    let parsed = Png::parse(&bytes).unwrap();
    assert_eq!(parsed.chunks().len(), 3);
    assert_eq!(parsed.as_bytes(), bytes);
    assert_eq!(&bytes[..8], &[137, 80, 78, 71, 13, 10, 26, 10]);
}

#[test]
fn empty_container_round_trip() {
    let bytes = empty_png_bytes();
    let png = Png::parse(&bytes).unwrap();
    assert!(png.chunks().is_empty());
    assert_eq!(png.as_bytes(), bytes);
}

#[test]
fn bad_signature_is_rejected() {
    let mut bytes = Png::from_chunks(vec![rust_chunk()]).as_bytes();
    bytes[0] = 0;
    assert_eq!(Png::parse(&bytes).err(), Some(PngError::BadSignature));
    assert_eq!(Png::parse(&[137, 80, 78]).err(), Some(PngError::BadSignature));
}

#[test]
fn one_bad_chunk_fails_the_whole_container() {
    let mut bytes = Png::from_chunks(vec![rust_chunk(), rust_chunk()]).as_bytes();
    let last = bytes.len() - 1;
    bytes[last] ^= 1;
    assert_eq!(Png::parse(&bytes).err(), Some(PngError::ChecksumMismatch));
    bytes.truncate(last);
    assert_eq!(Png::parse(&bytes).err(), Some(PngError::TruncatedInput));
}

#[test]
fn append_adds_at_the_end_and_remove_takes_the_first() {
    let mut png = Png::from_chunks(vec![ihdr_chunk(8, 2)]);
    png.append_chunk(rust_chunk());
    png.append_chunk(Chunk::new(ChunkType::from_text("RuSt").unwrap(), b"second".to_vec()));
    assert_eq!(png.chunks().len(), 3);
    assert_eq!(png.chunks()[2].data(), b"second");
    let t = ChunkType::from_text("RuSt").unwrap();
    let removed = png.remove_chunk(&t).unwrap();
    assert_eq!(removed.data(), MESSAGE.as_bytes());
    assert_eq!(png.chunks().len(), 2);
    assert_eq!(png.chunks()[1].data(), b"second");
}

#[test]
fn second_remove_of_absent_type_is_not_found() {
    let mut png = Png::from_chunks(vec![rust_chunk()]);
    let t = ChunkType::from_text("RuSt").unwrap();
    assert!(png.remove_chunk(&t).is_ok());
    assert_eq!(png.remove_chunk(&t).err(), Some(PngError::NotFound));
    assert_eq!(png.remove_chunk(&t).err(), Some(PngError::NotFound));
    assert!(png.chunks().is_empty());
}

#[test]
fn encode_decode_remove_end_to_end() {
    let encoded = encode_message(&empty_png_bytes(), "ruSt", "hello").unwrap();
    assert_eq!(decode_message(&encoded, "ruSt").unwrap(), vec![String::from("hello")]);
    let cleaned = remove_all_matching(&encoded, "ruSt").unwrap();
    assert!(decode_message(&cleaned, "ruSt").unwrap().is_empty());
    assert_eq!(cleaned, empty_png_bytes());
}

#[test]
fn decode_skips_critical_chunks() {
    let encoded = encode_message(&empty_png_bytes(), "RuSt", "hidden").unwrap();
    assert!(decode_message(&encoded, "RuSt").unwrap().is_empty());
}

#[test]
fn remove_all_keeps_other_chunks_in_order() {
    let mut bytes = empty_png_bytes();
    for (code, text) in [("ruSt", "a"), ("abCd", "b"), ("ruSt", "c"), ("abCd", "d")] {
        bytes = encode_message(&bytes, code, text).unwrap();
    }
    assert_eq!(decode_message(&bytes, "ruSt").unwrap(), vec![String::from("a"), String::from("c")]);
    let cleaned = remove_all_matching(&bytes, "ruSt").unwrap();
    assert!(decode_message(&cleaned, "ruSt").unwrap().is_empty());
    assert_eq!(decode_message(&cleaned, "abCd").unwrap(), vec![String::from("b"), String::from("d")]);
}

#[test]
fn commands_report_errors() {
    assert_eq!(encode_message(&[1, 2, 3], "ruSt", "x").err(), Some(PngError::BadSignature));
    assert_eq!(encode_message(&empty_png_bytes(), "ru", "x").err(), Some(PngError::InvalidTypeCode));
    assert_eq!(decode_message(&empty_png_bytes(), "r1St").err(), Some(PngError::InvalidTypeCode));
    assert_eq!(remove_all_matching(&[], "ruSt").err(), Some(PngError::BadSignature));
}

#[test]
fn chunk_kinds_share_one_interface() {
    let plain = ihdr_chunk(8, 2);
    let header = IHDR::from_chunk(&plain).unwrap();
    assert_eq!(AnyChunk::as_bytes(&header), plain.as_bytes());
    assert_eq!(AnyChunk::as_bytes(&plain), plain.as_bytes());
    assert_eq!(AnyChunk::length(&header), 13);
    assert_eq!(AnyChunk::crc(&header), plain.crc());
    assert_eq!(AnyChunk::data(&header), plain.data());
    assert_eq!(AnyChunk::chunk_type(&header).to_string(), "IHDR");
    assert_eq!(AnyChunk::data_as_string(&header).err(), Some(PngError::NotUtf8));
    assert_eq!(AnyChunk::data_as_string(&rust_chunk()).unwrap(), MESSAGE);
}

#[test]
fn chunk_from_parts_checks_the_checksum() {
    let t = ChunkType::from_text("RuSt").unwrap();
    let ok = Chunk::from_parts(t, MESSAGE.as_bytes().to_vec(), 2882656334).unwrap();
    assert_eq!(ok.length(), 42);
    assert_eq!(ok.crc(), 2882656334);
    let bad = Chunk::from_parts(t, MESSAGE.as_bytes().to_vec(), 2882656333);
    assert_eq!(bad.unwrap_err(), PngError::ChecksumMismatch);
}
