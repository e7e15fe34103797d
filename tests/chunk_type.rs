use pngme::{ChunkType, ChunkTypeError};
use std::convert::TryFrom;
use std::str::FromStr;

#[test]
pub fn test_chunk_type_from_bytes() {
    let expected = [82, 117, 83, 116];
    let actual = ChunkType::try_from([82, 117, 83, 116]).unwrap();

    assert_eq!(expected, actual.bytes());
}

#[test]
pub fn test_chunk_type_from_str() {
    let expected = ChunkType::try_from([82, 117, 83, 116]).unwrap();
    let actual = ChunkType::from_str("RuSt").unwrap();
    assert_eq!(expected, actual);
}

#[test]
pub fn test_chunk_type_is_critical() {
    let chunk = ChunkType::from_str("RuSt").unwrap();
    assert!(chunk.is_critical());
}

#[test]
pub fn test_chunk_type_is_not_critical() {
    let chunk = ChunkType::from_str("ruSt").unwrap();
    assert!(!chunk.is_critical());
}

#[test]
pub fn test_chunk_type_is_public() {
    let chunk = ChunkType::from_str("RUSt").unwrap();
    assert!(chunk.is_public());
}

#[test]
pub fn test_chunk_type_is_not_public() {
    let chunk = ChunkType::from_str("RuSt").unwrap();
    assert!(!chunk.is_public());
}

#[test]
pub fn test_chunk_type_is_reserved_bit_valid() {
    let chunk = ChunkType::from_str("RuSt").unwrap();
    assert!(chunk.is_reserved_bit_valid());
}

#[test]
pub fn test_chunk_type_is_reserved_bit_invalid() {
    let chunk = ChunkType::from_str("Rust").unwrap();
    assert!(!chunk.is_reserved_bit_valid());
}

#[test]
pub fn test_chunk_type_is_safe_to_copy() {
    let chunk = ChunkType::from_str("RuSt").unwrap();
    assert!(chunk.is_safe_to_copy());
}

#[test]
pub fn test_chunk_type_is_unsafe_to_copy() {
    let chunk = ChunkType::from_str("RuST").unwrap();
    assert!(!chunk.is_safe_to_copy());
}

#[test]
pub fn test_valid_chunk_is_valid() {
    let chunk = ChunkType::from_str("RuSt").unwrap();
    assert!(chunk.is_valid());
}

#[test]
pub fn test_invalid_chunk_is_valid() {
    let chunk = ChunkType::from_str("Rust").unwrap();
    assert!(chunk.is_valid());

    let chunk = ChunkType::from_str("Ru1t");
    assert!(chunk.is_err());
}

#[test]
pub fn test_chunk_type_string() {
    let chunk = ChunkType::from_str("RuSt").unwrap();
    assert_eq!(&chunk.to_string(), "RuSt");
}

#[test]
pub fn test_chunk_type_trait_impls() {
    let chunk_type_1: ChunkType = TryFrom::try_from([82, 117, 83, 116]).unwrap();
    let chunk_type_2: ChunkType = FromStr::from_str("RuSt").unwrap();
    let _chunk_string = chunk_type_1.to_string();
    let _are_chunks_equal = chunk_type_1 == chunk_type_2;
}

#[test]
fn flags_of_rust_tag() {
    let chunk = ChunkType::from_str("RuSt").unwrap();
    assert!(chunk.is_critical());
    assert!(!chunk.is_public());
    assert!(chunk.is_reserved_bit_valid());
    assert!(chunk.is_safe_to_copy());
}

#[test]
fn malformed_text_gives_malformed_tag() {
    assert_eq!(ChunkType::from_str("Ru1t"), Err(ChunkTypeError::MalformedTag));
    assert_eq!(ChunkType::from_text("Ru1t"), Err(ChunkTypeError::MalformedTag));
}

#[test]
fn text_of_wrong_length_is_rejected() {
    assert_eq!(ChunkType::from_text(""), Err(ChunkTypeError::MalformedTag));
    assert_eq!(ChunkType::from_text("Ru"), Err(ChunkTypeError::MalformedTag));
    assert_eq!(ChunkType::from_text("RuStX"), Err(ChunkTypeError::MalformedTag));
}

#[test]
fn non_ascii_text_is_rejected() {
    assert_eq!(ChunkType::from_text("RuS\u{e9}"), Err(ChunkTypeError::MalformedTag));
    assert_eq!(ChunkType::from_text("R\u{e9}t"), Err(ChunkTypeError::MalformedTag));
}

#[test]
fn bytes_outside_letter_ranges_are_rejected() {
    for b in [0u8, 64, 91, 96, 123, 255] {
        assert_eq!(ChunkType::from_bytes([b, 117, 83, 116]), Err(ChunkTypeError::MalformedTag));
        assert_eq!(ChunkType::try_from([82, 117, 83, b]), Err(ChunkTypeError::MalformedTag));
    }
    for b in [65u8, 90, 97, 122] {
        assert!(ChunkType::from_bytes([b, b, b, b]).is_ok());
    }
}

#[test]
fn equal_bytes_and_text_give_equal_tags() {
    let from_bytes = ChunkType::from_bytes([82, 117, 83, 116]).unwrap();
    let from_text = ChunkType::from_text("RuSt").unwrap();
    assert_eq!(from_bytes, from_text);
    assert_eq!(from_text.bytes(), [82, 117, 83, 116]);
    assert_ne!(from_text, ChunkType::from_text("Rust").unwrap());
}

#[test]
fn text_round_trip() {
    for x in ["RuSt", "abcd", "ZZZZ", "IHDR", "tEXt"] {
        let t = ChunkType::from_str(x).unwrap();
        let text = t.to_string();
        assert_eq!(text, x);
        assert_eq!(ChunkType::from_str(&text).unwrap(), t);
    }
}

#[test]
fn bytes_round_trip() {
    let t = ChunkType::from_text("tEXt").unwrap();
    assert_eq!(ChunkType::try_from(t.bytes()).unwrap(), t);
}
