use pngme::chunk::Chunk;
use pngme::chunk_error::ChunkError;
use pngme::chunk_type::ChunkType;
use pngme::png::Png;

const SIGNATURE: [u8; 8] = [137, 80, 78, 71, 13, 10, 26, 10];

fn chunk_of(tag: &str, payload: &[u8]) -> Chunk {
    Chunk::new(ChunkType::from_str(tag).unwrap(), payload.to_vec())
}

fn png_bytes(chunks: &[Chunk]) -> Vec<u8> {
    let mut out = SIGNATURE.to_vec();
    for chunk in chunks {
        out.extend_from_slice(&chunk.as_bytes());
    }
    out
}

#[test]
fn test_png_parse_empty() {
    let png = Png::from_bytes(&SIGNATURE).unwrap();
    assert_eq!(png.chunks().len(), 0);
    assert_eq!(png.as_bytes(), SIGNATURE.to_vec());
}

#[test]
fn test_png_signature_mismatch() {
    // a buffer not starting with the 8-byte signature fails
    let bytes = [13u8, 80, 78, 71, 13, 10, 26, 10];
    assert!(matches!(
        Png::from_bytes(&bytes),
        Err(ChunkError::SignatureMismatch)
    ));
    assert!(matches!(
        Png::from_bytes(&[137, 80, 78]),
        Err(ChunkError::SignatureMismatch)
    ));
}

#[test]
fn test_png_roundtrip() {
    let bytes = png_bytes(&[
        chunk_of("FrSt", b"I am the first chunk"),
        chunk_of("miDl", b"I am another chunk"),
        chunk_of("LASt", b"I am the last chunk"),
    ]);
    let png = Png::from_bytes(&bytes).unwrap();
    assert_eq!(png.chunks().len(), 3);
    assert_eq!(png.as_bytes(), bytes);
}

#[test]
fn test_png_parse_truncated_chunk() {
    let mut bytes = png_bytes(&[chunk_of("FrSt", b"hello")]);
    bytes.pop();
    assert!(matches!(
        Png::from_bytes(&bytes),
        Err(ChunkError::TruncatedChunk)
    ));
}

#[test]
fn test_png_parse_bad_crc() {
    let mut bytes = png_bytes(&[chunk_of("FrSt", b"hello")]);
    let last = bytes.len() - 1;
    bytes[last] ^= 0xff;
    assert!(matches!(
        Png::from_bytes(&bytes),
        Err(ChunkError::ChecksumMismatch)
    ));
}

#[test]
fn test_png_append_chunk() {
    let bytes = png_bytes(&[chunk_of("FrSt", b"one")]);
    let mut png = Png::from_bytes(&bytes).unwrap();
    png.append_chunk(chunk_of("RuSt", b"two"));
    assert_eq!(png.chunks().len(), 2);
    assert_eq!(
        png.chunks()[1].chunk_type().to_string(),
        String::from("RuSt")
    );
    let expected = png_bytes(&[chunk_of("FrSt", b"one"), chunk_of("RuSt", b"two")]);
    assert_eq!(png.as_bytes(), expected);
}

#[test]
fn test_png_append_then_remove_restores_bytes() {
    // append of a fresh tag followed by removing it is a no-op
    let before = png_bytes(&[chunk_of("FrSt", b"one"), chunk_of("miDl", b"two")]);
    let mut png = Png::from_bytes(&before).unwrap();
    png.append_chunk(chunk_of("RuSt", b"secret"));
    let removed = png.remove_chunk("RuSt").unwrap();
    assert_eq!(removed.data(), b"secret");
    assert_eq!(removed.chunk_type().bytes(), *b"RuSt");
    assert_eq!(png.as_bytes(), before);
}

#[test]
fn test_png_remove_first_match_only() {
    let bytes = png_bytes(&[
        chunk_of("RuSt", b"one"),
        chunk_of("miDl", b"two"),
        chunk_of("RuSt", b"three"),
    ]);
    let mut png = Png::from_bytes(&bytes).unwrap();
    let removed = png.remove_chunk("RuSt").unwrap();
    assert_eq!(removed.data(), b"one");
    let expected = png_bytes(&[chunk_of("miDl", b"two"), chunk_of("RuSt", b"three")]);
    assert_eq!(png.as_bytes(), expected);
}

#[test]
fn test_png_remove_missing() {
    let bytes = png_bytes(&[chunk_of("FrSt", b"one")]);
    let mut png = Png::from_bytes(&bytes).unwrap();
    assert!(png.remove_chunk("RuSt").is_none());
    assert_eq!(png.as_bytes(), bytes);
}

#[test]
fn test_png_chunk_by_type_all_matches_in_order() {
    let bytes = png_bytes(&[
        chunk_of("RuSt", b"one"),
        chunk_of("miDl", b"two"),
        chunk_of("RuSt", b"three"),
    ]);
    let png = Png::from_bytes(&bytes).unwrap();
    let found = png.chunk_by_type("RuSt");
    assert_eq!(found.len(), 2);
    assert_eq!(found[0].data(), b"one");
    assert_eq!(found[1].data(), b"three");
}

#[test]
fn test_png_chunk_by_type_empty_when_absent() {
    let bytes = png_bytes(&[chunk_of("FrSt", b"one")]);
    let png = Png::from_bytes(&bytes).unwrap();
    assert!(png.chunk_by_type("RuSt").is_empty());
}

#[test]
fn test_png_new_is_empty() {
    let png = Png::new();
    assert_eq!(png.chunks().len(), 0);
    assert_eq!(png.as_bytes(), SIGNATURE.to_vec());
}
