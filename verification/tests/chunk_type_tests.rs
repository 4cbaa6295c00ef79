use pngme::chunk_type::ChunkType;

#[test]
pub fn test_chunk_type_from_bytes() {
    let expected = [82, 117, 83, 116];
    let actual = ChunkType::from_bytes([82, 117, 83, 116]).unwrap();

    assert_eq!(expected, actual.bytes());
}

#[test]
pub fn test_chunk_type_from_str() {
    let expected = ChunkType::from_bytes([82, 117, 83, 116]).unwrap();
    let actual = ChunkType::from_str("RuSt").unwrap();
    assert_eq!(expected, actual);
}

#[test]
pub fn test_chunk_type_is_critical() {
    let chunk = ChunkType::from_str("RuSt").unwrap();
    assert!(chunk.is_critical());
}

#[test]
pub fn test_chunk_type_is_not_critical() {
    let chunk = ChunkType::from_str("ruSt").unwrap();
    assert!(!chunk.is_critical());
}

#[test]
pub fn test_chunk_type_is_public() {
    let chunk = ChunkType::from_str("RUSt").unwrap();
    assert!(chunk.is_public());
}

#[test]
pub fn test_chunk_type_is_not_public() {
    let chunk = ChunkType::from_str("RuSt").unwrap();
    assert!(!chunk.is_public());
}

#[test]
pub fn test_chunk_type_is_reserved_bit_valid() {
    let chunk = "RuSt".as_bytes();
    assert!(ChunkType::is_reserved_bit_valid(chunk[2]));
}

#[test]
pub fn test_chunk_type_is_reserved_bit_invalid() {
    let chunk = ChunkType::from_str("Rust");
    assert!(chunk.is_err());
}

#[test]
pub fn test_chunk_type_is_safe_to_copy() {
    let chunk = ChunkType::from_str("RuSt").unwrap();
    assert!(chunk.is_safe_to_copy());
}

#[test]
pub fn test_chunk_type_is_unsafe_to_copy() {
    let chunk = ChunkType::from_str("RuST").unwrap();
    assert!(!chunk.is_safe_to_copy());
}

#[test]
pub fn test_valid_chunk_is_valid() {
    let chunk = ChunkType::from_str("RuSt");
    assert!(chunk.is_ok());
}

#[test]
pub fn test_invalid_chunk_is_valid() {
    let chunk = ChunkType::from_str("Ru1t");
    assert!(chunk.is_err());
}

#[test]
pub fn test_chunk_type_string() {
    let chunk = ChunkType::from_str("RuSt").unwrap();
    assert_eq!(&chunk.to_string(), "RuSt");
}

#[test]
pub fn test_chunk_type_trait_impls() {
    let chunk_type_1: ChunkType = ChunkType::from_bytes([82, 117, 83, 116]).unwrap();
    let chunk_type_2: ChunkType = ChunkType::from_str("RuSt").unwrap();
    let _chunk_string = chunk_type_1.to_string();

    let _are_chunks_equal = chunk_type_1 == chunk_type_2;
}

#[test]
fn test_from_bytes_accepts_lowercase_reserved_bit() {
    // the relaxed constructor permits any case at index 2
    let chunk = ChunkType::from_bytes([82, 117, 115, 116]).unwrap();
    assert_eq!(chunk.bytes(), [82, 117, 115, 116]);
    assert!(!ChunkType::is_valid(&chunk.bytes()));
}

#[test]
fn test_from_bytes_rejects_non_letter() {
    assert!(ChunkType::from_bytes([82, 117, 83, 33]).is_err());
}

#[test]
fn test_is_valid_byte() {
    assert!(ChunkType::is_valid_byte(&b'a'));
    assert!(ChunkType::is_valid_byte(&b'Z'));
    assert!(!ChunkType::is_valid_byte(&b'1'));
    assert!(!ChunkType::is_valid_byte(&b' '));
}

#[test]
fn test_is_valid() {
    assert!(ChunkType::is_valid("RuSt".as_bytes()));
    assert!(!ChunkType::is_valid("Rust".as_bytes()));
    assert!(!ChunkType::is_valid("Ru1t".as_bytes()));
}

#[test]
fn test_from_str_wrong_length() {
    assert!(ChunkType::from_str("RuStX").is_err());
    assert!(ChunkType::from_str("RuS").is_err());
    assert!(ChunkType::from_str("").is_err());
}
