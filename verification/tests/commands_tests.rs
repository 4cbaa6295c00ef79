use pngme::chunk::Chunk;
use pngme::chunk_error::ChunkError;
use pngme::chunk_type::ChunkType;
use pngme::commands::{Commands, FileType};
use pngme::png::Png;

const SIGNATURE: [u8; 8] = [137, 80, 78, 71, 13, 10, 26, 10];

fn chunk_of(tag: &str, payload: &[u8]) -> Chunk {
    Chunk::new(ChunkType::from_str(tag).unwrap(), payload.to_vec())
}

fn png_bytes(chunks: &[Chunk]) -> Vec<u8> {
    let mut out = SIGNATURE.to_vec();
    for chunk in chunks {
        out.extend_from_slice(&chunk.as_bytes());
    }
    out
}

#[test]
fn test_encode_appends_chunk() {
    let before = png_bytes(&[chunk_of("FrSt", b"one")]);
    let out = Commands::encode(
        &before,
        &"RuSt".to_string(),
        &"This is where your secret message will be!".to_string(),
    )
    .unwrap();
    let expected = png_bytes(&[
        chunk_of("FrSt", b"one"),
        chunk_of("RuSt", b"This is where your secret message will be!"),
    ]);
    assert_eq!(out, expected);
}

#[test]
fn test_encode_rejects_bad_tag() {
    let before = png_bytes(&[]);
    assert!(matches!(
        Commands::encode(&before, &"Ru1t".to_string(), &"msg".to_string()),
        Err(ChunkError::InvalidChunkType)
    ));
}

#[test]
fn test_encode_rejects_bad_signature() {
    assert!(matches!(
        Commands::encode(&[0u8; 20], &"RuSt".to_string(), &"msg".to_string()),
        Err(ChunkError::SignatureMismatch)
    ));
}

#[test]
fn test_encode_then_decode() {
    let before = png_bytes(&[chunk_of("FrSt", b"one")]);
    let tag = "RuSt".to_string();
    let out = Commands::encode(&before, &tag, &"hidden message".to_string()).unwrap();
    let messages = Commands::decode(&out, &tag).unwrap();
    assert_eq!(messages, vec!["hidden message".to_string()]);
}

#[test]
fn test_decode_all_matches() {
    let bytes = png_bytes(&[
        chunk_of("RuSt", b"one"),
        chunk_of("miDl", b"two"),
        chunk_of("RuSt", b"three"),
    ]);
    let messages = Commands::decode(&bytes, &"RuSt".to_string()).unwrap();
    assert_eq!(messages, vec!["one".to_string(), "three".to_string()]);
}

#[test]
fn test_decode_not_found() {
    let bytes = png_bytes(&[chunk_of("FrSt", b"one")]);
    assert!(matches!(
        Commands::decode(&bytes, &"RuSt".to_string()),
        Err(ChunkError::ChunkTypeNotFound)
    ));
}

#[test]
fn test_decode_invalid_utf8_payload() {
    let bytes = png_bytes(&[chunk_of("RuSt", &[0xff, 0xfe])]);
    assert!(matches!(
        Commands::decode(&bytes, &"RuSt".to_string()),
        Err(ChunkError::InvalidUtf8Payload)
    ));
}

#[test]
fn test_remove_returns_chunk_and_bytes() {
    let before = png_bytes(&[chunk_of("FrSt", b"one"), chunk_of("RuSt", b"secret")]);
    let (out, removed) = Commands::remove(&before, &"RuSt".to_string()).unwrap();
    assert_eq!(removed.data(), b"secret");
    assert_eq!(out, png_bytes(&[chunk_of("FrSt", b"one")]));
}

#[test]
fn test_remove_not_found() {
    let bytes = png_bytes(&[chunk_of("FrSt", b"one")]);
    assert!(matches!(
        Commands::remove(&bytes, &"RuSt".to_string()),
        Err(ChunkError::ChunkTypeNotFound)
    ));
}

#[test]
fn test_convert_to_4_byte_array() {
    let arr = Commands::convert_to_4_byte_array(&"RuSt".to_string());
    assert_eq!(arr, [82, 117, 83, 116]);
}

#[test]
fn test_convert_to_file_type() {
    assert!(matches!(
        Commands::convert_to_file_type(&"https://example.org/a.png".to_string()),
        FileType::Url(_)
    ));
    assert!(matches!(
        Commands::convert_to_file_type(&"./a.png".to_string()),
        FileType::Local(_)
    ));
}

#[test]
fn test_parse_rust_logo_like_structure() {
    // a container with duplicate tags keeps every chunk in order
    let bytes = png_bytes(&[
        chunk_of("IHDR", b"x"),
        chunk_of("IDAT", b"y"),
        chunk_of("IDAT", b"z"),
        chunk_of("IEND", b""),
    ]);
    let png = Png::from_bytes(&bytes).unwrap();
    assert_eq!(png.chunks().len(), 4);
    assert_eq!(png.chunk_by_type("IDAT").len(), 2);
}
