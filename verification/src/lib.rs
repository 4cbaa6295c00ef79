//! A verified codec for the PNG container format, built for embedding,
//! finding and removing custom data chunks in a PNG byte stream.
//!
//! The core pieces are:
//! - [`chunk_type::ChunkType`]: a 4-byte ASCII chunk identifier with
//!   case-encoded flag bits,
//! - [`chunk::Chunk`]: one length-prefixed, checksummed chunk record,
//! - [`png::Png`]: the full container (signature plus an ordered chunk
//!   sequence) with parse, serialize, append, lookup and remove.
//!
//! Parsing and serialization are specified against each other: parsing a
//! well-formed buffer and serializing the result reproduces the buffer
//! byte for byte, and serializing a chunk and parsing it back yields an
//! identical chunk.

pub mod be32;
pub mod chunk;
pub mod chunk_error;
pub mod text;
pub mod chunk_type;
pub mod cli;
pub mod commands;
pub mod crc32;
pub mod file_type;
pub mod png;
