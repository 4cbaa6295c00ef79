use vstd::prelude::*;

verus! {

/// The ways reading or querying a PNG byte stream can fail.
///
/// Parse failures abort the whole parse: no partial container or chunk is
/// ever returned. `ChunkTypeNotFound` is not a parse failure but a lookup
/// miss, so a caller can tell a malformed file from an absent chunk.
#[derive(Clone, Copy, Debug, PartialEq, Eq, Structural)]
pub enum ChunkError {
    /// The buffer does not start with the 8-byte PNG signature.
    SignatureMismatch,
    /// Fewer than 12 bytes remain where a chunk record was expected, or the
    /// declared payload length does not fit the remaining bytes.
    TruncatedChunk,
    /// A chunk type byte is not an ASCII letter, or the strict constructor's
    /// reserved-bit rule is violated.
    InvalidChunkType,
    /// The stored CRC-32 differs from the one recomputed over the chunk's
    /// type and payload bytes.
    ChecksumMismatch,
    /// A payload requested as text is not valid UTF-8.
    InvalidUtf8Payload,
    /// A lookup or removal found no chunk with the requested type tag.
    ChunkTypeNotFound,
}

impl ChunkError {
    /// A human-readable description of the error.
    pub fn message(&self) -> (r: &'static str)
        ensures
            *self is SignatureMismatch ==> r@ == "bytes do not start with the PNG signature"@,
            *self is TruncatedChunk ==> r@ == "chunk record is truncated"@,
            *self is InvalidChunkType ==> r@ == "chunk type bytes are invalid"@,
            *self is ChecksumMismatch ==> r@ == "crc does not match"@,
            *self is InvalidUtf8Payload ==> r@ == "chunk payload is not valid UTF-8"@,
            *self is ChunkTypeNotFound ==> r@ == "chunk type not found"@,
    {
        match self {
            ChunkError::SignatureMismatch => "bytes do not start with the PNG signature",
            ChunkError::TruncatedChunk => "chunk record is truncated",
            ChunkError::InvalidChunkType => "chunk type bytes are invalid",
            ChunkError::ChecksumMismatch => "crc does not match",
            ChunkError::InvalidUtf8Payload => "chunk payload is not valid UTF-8",
            ChunkError::ChunkTypeNotFound => "chunk type not found",
        }
    }
}

} // verus!
