use pngme::chunk_type::{ChunkType, ParseChunkTypeError};
use std::convert::TryFrom;
use std::str::FromStr;

#[test]
pub fn test_chunk_type_from_bytes() {
    let expected = [82, 117, 83, 116];
    let actual = ChunkType::try_from([82, 117, 83, 116]).unwrap();

    assert_eq!(expected, actual.bytes());
}

#[test]
pub fn test_chunk_type_from_str() {
    let expected = ChunkType::try_from([82, 117, 83, 116]).unwrap();
    let actual = ChunkType::from_str("RuSt").unwrap();
    assert_eq!(expected, actual);
}

#[test]
pub fn test_chunk_type_is_critical() {
    let chunk = ChunkType::from_str("RuSt").unwrap();
    assert!(chunk.is_critical());
}

#[test]
pub fn test_chunk_type_is_not_critical() {
    let chunk = ChunkType::from_str("ruSt").unwrap();
    assert!(!chunk.is_critical());
}

#[test]
pub fn test_chunk_type_is_public() {
    let chunk = ChunkType::from_str("RUSt").unwrap();
    assert!(chunk.is_public());
}

#[test]
pub fn test_chunk_type_is_not_public() {
    let chunk = ChunkType::from_str("RuSt").unwrap();
    assert!(!chunk.is_public());
}

#[test]
pub fn test_chunk_type_is_reserved_bit_valid() {
    let chunk = ChunkType::from_str("RuSt").unwrap();
    assert!(chunk.is_reserved_bit_valid());
}

#[test]
pub fn test_chunk_type_is_reserved_bit_invalid() {
    let chunk = ChunkType::from_str("Rust").unwrap();
    assert!(!chunk.is_reserved_bit_valid());
}

#[test]
pub fn test_chunk_type_is_safe_to_copy() {
    let chunk = ChunkType::from_str("RuSt").unwrap();
    assert!(chunk.is_safe_to_copy());
}

#[test]
pub fn test_chunk_type_is_unsafe_to_copy() {
    let chunk = ChunkType::from_str("RuST").unwrap();
    assert!(!chunk.is_safe_to_copy());
}

#[test]
pub fn test_valid_chunk_is_valid() {
    let chunk = ChunkType::from_str("RuSt").unwrap();
    assert!(chunk.is_valid());
}

#[test]
pub fn test_invalid_chunk_is_valid() {
    let chunk = ChunkType::from_str("Rust").unwrap();
    assert!(!chunk.is_valid());
    let chunk = ChunkType::from_str("Ru1t");
    assert!(chunk.is_err());
}

#[test]
pub fn test_chunk_type_string() {
    let chunk = ChunkType::from_str("RuSt").unwrap();
    assert_eq!(&chunk.to_string(), "RuSt");
}

#[test]
pub fn test_chunk_type_trait_impls() {
    let chunk_type_1: ChunkType = TryFrom::try_from([82, 117, 83, 116]).unwrap();
    let chunk_type_2: ChunkType = FromStr::from_str("RuSt").unwrap();
    let _chunk_string = chunk_type_1.to_string();
    let _are_chunks_equal = chunk_type_1 == chunk_type_2;
}

#[test]
fn type_boundary_letters_accepted_digit_refused() {
    assert!(ChunkType::from_bytes([82, 117, 83, 116]).is_ok());
    assert_eq!(ChunkType::from_bytes([82, 117, 49, 116]), Err(ParseChunkTypeError));
}

#[test]
fn type_bytes_next_to_letter_ranges_refused() {
    for b in [64u8, 91, 96, 123, 0, 255] {
        assert_eq!(ChunkType::from_bytes([b, 65, 65, 65]), Err(ParseChunkTypeError));
        assert_eq!(ChunkType::from_bytes([65, 65, 65, b]), Err(ParseChunkTypeError));
    }
    for b in [65u8, 90, 97, 122] {
        assert!(ChunkType::from_bytes([b, b, b, b]).is_ok());
    }
}

#[test]
fn type_from_text_needs_four_letters() {
    assert!(ChunkType::from_text("RuS").is_err());
    assert!(ChunkType::from_text("RuStX").is_err());
    assert!(ChunkType::from_text("").is_err());
    assert!(ChunkType::from_text("Ru t").is_err());
    assert!(ChunkType::from_text("R\u{e9}S").is_err());
    assert_eq!(ChunkType::from_text("teSt").unwrap().bytes(), [116, 101, 83, 116]);
}

#[test]
fn type_property_bits() {
    let t = ChunkType::from_text("RuSt").unwrap();
    assert!(t.is_critical());
    assert!(t.is_safe_to_copy());
    assert!(!ChunkType::from_text("ruSt").unwrap().is_critical());
    assert!(!ChunkType::from_text("RuST").unwrap().is_safe_to_copy());
    let lower = ChunkType::from_text("abcd").unwrap();
    assert!(!lower.is_critical() && !lower.is_public() && !lower.is_valid() && lower.is_safe_to_copy());
    let upper = ChunkType::from_text("ABCD").unwrap();
    assert!(upper.is_critical() && upper.is_public() && upper.is_valid() && !upper.is_safe_to_copy());
}

#[test]
fn type_equality_is_bytewise() {
    assert!(ChunkType::from_text("RuSt").unwrap() != ChunkType::from_text("RuST").unwrap());
    assert!(ChunkType::from_text("IDAT").unwrap() == ChunkType::from_bytes([73, 68, 65, 84]).unwrap());
}
