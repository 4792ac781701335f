use pngme::chunk_type::ChunkType;
use pngme::error::PngError;
use std::convert::TryFrom;
use std::str::FromStr;

#[test]
pub fn test_chunk_type_from_bytes() {
    let expected = [82, 117, 83, 116];
    let actual = ChunkType::try_from([82, 117, 83, 116]).unwrap();

    assert_eq!(expected, actual.bytes());
}

#[test]
pub fn test_chunk_type_from_str() {
    let expected = ChunkType::try_from([82, 117, 83, 116]).unwrap();
    let actual = ChunkType::from_str("RuSt").unwrap();
    assert_eq!(expected, actual);
}

#[test]
pub fn test_chunk_type_is_critical() {
    let chunk = ChunkType::from_str("RuSt").unwrap();
    assert!(chunk.is_critical());
}

#[test]
pub fn test_chunk_type_is_not_critical() {
    let chunk = ChunkType::from_str("ruSt").unwrap();
    assert!(!chunk.is_critical());
}

#[test]
pub fn test_chunk_type_is_public() {
    let chunk = ChunkType::from_str("RUSt").unwrap();
    assert!(chunk.is_public());
}

#[test]
pub fn test_chunk_type_is_not_public() {
    let chunk = ChunkType::from_str("RuSt").unwrap();
    assert!(!chunk.is_public());
}

#[test]
pub fn test_chunk_type_is_reserved_bit_valid() {
    let chunk = ChunkType::from_str("RuSt").unwrap();
    assert!(chunk.is_reserved_bit_valid());
}

#[test]
pub fn test_chunk_type_is_reserved_bit_invalid() {
    let chunk = ChunkType::from_str("Rust").unwrap();
    assert!(!chunk.is_reserved_bit_valid());
}

#[test]
pub fn test_chunk_type_is_safe_to_copy() {
    let chunk = ChunkType::from_str("RuSt").unwrap();
    assert!(chunk.is_safe_to_copy());
}

#[test]
pub fn test_chunk_type_is_unsafe_to_copy() {
    let chunk = ChunkType::from_str("RuST").unwrap();
    assert!(!chunk.is_safe_to_copy());
}

#[test]
pub fn test_valid_chunk_is_valid() {
    let chunk = ChunkType::from_str("RuSt").unwrap();
    assert!(chunk.is_valid());
}

#[test]
pub fn test_invalid_chunk_is_valid() {
    let chunk = ChunkType::from_str("Rust").unwrap();
    assert!(!chunk.is_valid());

    let chunk = ChunkType::from_str("Ru1t");
    assert!(chunk.is_err());
}

#[test]
pub fn test_chunk_type_string() {
    let chunk = ChunkType::from_str("RuSt").unwrap();
    assert_eq!(&chunk.to_string(), "RuSt");
}

#[test]
pub fn test_chunk_type_trait_impls() {
    let chunk_type_1: ChunkType = TryFrom::try_from([82, 117, 83, 116]).unwrap();
    let chunk_type_2: ChunkType = FromStr::from_str("RuSt").unwrap();
    let _chunk_string = chunk_type_1.to_string();
    let _are_chunks_equal = chunk_type_1 == chunk_type_2;
}

#[test]
fn type_code_properties_of_rust_spellings() {
    let t = ChunkType::from_text("RuSt").unwrap();
    assert!(t.is_critical());
    assert!(!t.is_public());
    assert!(t.is_reserved_bit_valid());
    assert!(t.is_safe_to_copy());
    assert!(!ChunkType::from_text("Rust").unwrap().is_reserved_bit_valid());
    assert_eq!(ChunkType::from_text("Ru1t").unwrap_err(), PngError::InvalidTypeCode);
}

#[test]
fn type_code_from_short_text_fails() {
    assert_eq!(ChunkType::from_text("RuS").unwrap_err(), PngError::InvalidTypeCode);
    assert_eq!(ChunkType::from_text("").unwrap_err(), PngError::InvalidTypeCode);
}

#[test]
fn type_code_reads_only_first_four_bytes() {
    let t = ChunkType::from_text("RuSt1234").unwrap();
    assert_eq!(t.bytes(), *b"RuSt");
}

#[test]
fn type_code_from_bytes_rejects_non_letters() {
    assert_eq!(ChunkType::from_bytes([82, 117, 83, 64]).unwrap_err(), PngError::InvalidTypeCode);
    assert_eq!(ChunkType::from_bytes([91, 117, 83, 116]).unwrap_err(), PngError::InvalidTypeCode);
    assert!(ChunkType::from_bytes([65, 90, 97, 122]).is_ok());
}

#[test]
fn valid_byte_is_a_letter() {
    assert!(ChunkType::is_valid_byte(&b'a'));
    assert!(ChunkType::is_valid_byte(&b'Z'));
    assert!(!ChunkType::is_valid_byte(&b'0'));
    assert!(!ChunkType::is_valid_byte(&b'`'));
}

#[test]
fn type_codes_compare_by_bytes() {
    let a = ChunkType::from_text("ruSt").unwrap();
    let b = ChunkType::from_text("ruSt").unwrap();
    let c = ChunkType::from_text("RuSt").unwrap();
    assert!(a == b);
    assert!(a != c);
    assert!(a.equals(&b));
    assert!(!a.equals(&c));
}
