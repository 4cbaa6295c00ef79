use vstd::prelude::*;

use crate::chunk::{Chunk, ChunkView};
use crate::chunk_error::ChunkError;
use crate::chunk_type::{all_letters, ChunkType};
use crate::crc32::crc32_of;
use crate::file_type::{is_url_prefix, spec_is_url};
use crate::png::{
    spec_chunks_by_type, spec_find_chunk, spec_parse_png, spec_serialize_png, Png,
};

verus! {

/// Where a file argument points: a local filesystem path or an http(s)
/// URL, each carrying the argument itself.
pub enum FileType {
    Local(String),
    Url(String),
}

/// Errors of the command layer, each carrying its message.
#[derive(Debug)]
pub enum CommandErrors {
    Encode(&'static str),
    Decode(&'static str),
}

impl CommandErrors {
    /// The error's message.
    pub fn message(&self) -> (r: &'static str)
        ensures
            *self matches CommandErrors::Encode(m) ==> r == m,
            *self matches CommandErrors::Decode(m) ==> r == m,
    {
        match self {
            CommandErrors::Encode(m) => m,
            CommandErrors::Decode(m) => m,
        }
    }
}

/// The computations behind the command surface. Each function takes the
/// image as a byte buffer and returns plain values; reading and writing
/// files, fetching over the network and console output stay with the
/// caller.
#[derive(Debug)]
pub struct Commands {}

impl Commands {
    /// The first four bytes of the string, as the fixed-size array a chunk
    /// type tag is built from.
    pub fn convert_to_4_byte_array(val: &String) -> (r: [u8; 4])
        requires
            vstd::utf8::encode_utf8(val@).len() >= 4,
        ensures
            r@ == vstd::utf8::encode_utf8(val@).subrange(0, 4),
    {
        let bytes = val.as_str().as_bytes();
        let r = [bytes[0], bytes[1], bytes[2], bytes[3]];
        proof {
            assert(r@ =~= vstd::utf8::encode_utf8(val@).subrange(0, 4));
        }
        r
    }

    /// Classifies a file argument: strings beginning with "http" name
    /// URLs, everything else a local path.
    pub fn convert_to_file_type(file_path: &String) -> (r: FileType)
        ensures
            spec_is_url(file_path@) ==> (r matches FileType::Url(s) && s@ == file_path@),
            !spec_is_url(file_path@) ==> (r matches FileType::Local(s) && s@ == file_path@),
    {
        if is_url_prefix(file_path.as_str()) {
            FileType::Url(file_path.clone())
        } else {
            FileType::Local(file_path.clone())
        }
    }

    /// The encode command's computation: parses the image, appends a chunk
    /// that carries the message bytes under the given type tag, and
    /// serializes the result. Fails with the parse's error on a malformed
    /// image and with `InvalidChunkType` when the tag bytes are not ASCII
    /// letters.
    pub fn encode(png_bytes: &[u8], chunk_type: &String, message: &String) -> (r: Result<
        Vec<u8>,
        ChunkError,
    >)
        requires
            vstd::utf8::encode_utf8(chunk_type@).len() >= 4,
            vstd::utf8::encode_utf8(message@).len() < 0x1_0000_0000,
        ensures
            ({
                let tag = vstd::utf8::encode_utf8(chunk_type@).subrange(0, 4);
                let msg = vstd::utf8::encode_utf8(message@);
                match spec_parse_png(png_bytes@) {
                    Err(e) => r == Err::<Vec<u8>, ChunkError>(e),
                    Ok(chunks) => if !all_letters(tag) {
                        r == Err::<Vec<u8>, ChunkError>(ChunkError::InvalidChunkType)
                    } else {
                        r matches Ok(out) && out@ == spec_serialize_png(
                            chunks.push(
                                ChunkView {
                                    type_bytes: tag,
                                    data: msg,
                                    crc: crc32_of(tag + msg),
                                },
                            ),
                        )
                    },
                }
            }),
    {
        let mut png = match Png::from_bytes(png_bytes) {
            Ok(p) => p,
            Err(e) => {
                return Err(e);
            },
        };
        let b_chunk_type = Self::convert_to_4_byte_array(chunk_type);
        let chunk_type = match ChunkType::from_bytes(b_chunk_type) {
            Ok(t) => t,
            Err(e) => {
                return Err(e);
            },
        };
        let data = vstd::slice::slice_to_vec(message.as_str().as_bytes());
        let chunk = Chunk::new(chunk_type, data);
        png.append_chunk(chunk);
        Ok(png.as_bytes())
    }

    /// The decode command's computation: parses the image and returns the
    /// text of every chunk with the given type tag, in on-disk order. Fails
    /// with `ChunkTypeNotFound` when no chunk matches and with
    /// `InvalidUtf8Payload` when a matching payload is not UTF-8 text.
    pub fn decode(png_bytes: &[u8], chunk_type: &String) -> (r: Result<Vec<String>, ChunkError>)
        ensures
            ({
                let tag = vstd::utf8::encode_utf8(chunk_type@);
                match spec_parse_png(png_bytes@) {
                    Err(e) => r == Err::<Vec<String>, ChunkError>(e),
                    Ok(chunks) => {
                        let found = spec_chunks_by_type(chunks, tag);
                        if found.len() == 0 {
                            r == Err::<Vec<String>, ChunkError>(ChunkError::ChunkTypeNotFound)
                        } else if exists|i: int|
                            0 <= i < found.len() && !vstd::utf8::valid_utf8(
                                (#[trigger] found[i]).data,
                            ) {
                            r == Err::<Vec<String>, ChunkError>(ChunkError::InvalidUtf8Payload)
                        } else {
                            r matches Ok(msgs) && msgs@.map_values(|s: String| s@)
                                == found.map_values(
                                |cv: ChunkView| vstd::utf8::decode_utf8(cv.data),
                            )
                        }
                    },
                }
            }),
    {
        let png = match Png::from_bytes(png_bytes) {
            Ok(p) => p,
            Err(e) => {
                return Err(e);
            },
        };
        let found = png.chunk_by_type(chunk_type.as_str());
        let ghost found_views = found@.map_values(|c: Chunk| c@);
        if found.len() == 0 {
            return Err(ChunkError::ChunkTypeNotFound);
        }
        let n = found.len();
        let mut messages: Vec<String> = Vec::new();
        proof {
            assert(messages@.map_values(|s: String| s@) =~= found_views.take(0).map_values(
                |cv: ChunkView| vstd::utf8::decode_utf8(cv.data),
            ));
        }
        let mut i: usize = 0;
        while i < n
            invariant
                0 <= i <= n,
                n >= 1,
                n == found@.len(),
                found_views == found@.map_values(|c: Chunk| c@),
                spec_parse_png(png_bytes@) is Ok,
                found_views == spec_chunks_by_type(
                    spec_parse_png(png_bytes@)->Ok_0,
                    vstd::utf8::encode_utf8(chunk_type@),
                ),
                forall|j: int|
                    0 <= j < i ==> vstd::utf8::valid_utf8((#[trigger] found_views[j]).data),
                messages@.map_values(|s: String| s@) == found_views.take(i as int).map_values(
                    |cv: ChunkView| vstd::utf8::decode_utf8(cv.data),
                ),
            decreases n - i,
        {
            let ghost msgs_before = messages@.map_values(|s: String| s@);
            match found[i].data_as_string() {
                Ok(s) => {
                    messages.push(s);
                    proof {
                        assert(found@[i as int]@ == found_views[i as int]);
                        assert(messages@.map_values(|s: String| s@) =~= msgs_before.push(s@));
                        assert(found_views.take(i + 1) =~= found_views.take(i as int).push(
                            found_views[i as int],
                        ));
                        assert(messages@.map_values(|s: String| s@) =~= found_views.take(
                            i + 1,
                        ).map_values(|cv: ChunkView| vstd::utf8::decode_utf8(cv.data)));
                    }
                },
                Err(_) => {
                    proof {
                        assert(found@[i as int]@ == found_views[i as int]);
                        assert(!vstd::utf8::valid_utf8(found_views[i as int].data));
                    }
                    return Err(ChunkError::InvalidUtf8Payload);
                },
            }
            i += 1;
        }
        proof {
            assert(found_views.take(n as int) =~= found_views);
        }
        Ok(messages)
    }

    /// The remove command's computation: parses the image, removes the
    /// first chunk with the given type tag, and returns the serialized
    /// result together with the removed chunk. Fails with
    /// `ChunkTypeNotFound` when no chunk matches.
    pub fn remove(png_bytes: &[u8], chunk_type: &String) -> (r: Result<
        (Vec<u8>, Chunk),
        ChunkError,
    >)
        ensures
            ({
                let tag = vstd::utf8::encode_utf8(chunk_type@);
                match spec_parse_png(png_bytes@) {
                    Err(e) => r == Err::<(Vec<u8>, Chunk), ChunkError>(e),
                    Ok(chunks) => {
                        let f = spec_find_chunk(chunks, tag);
                        if f == -1 {
                            r == Err::<(Vec<u8>, Chunk), ChunkError>(ChunkError::ChunkTypeNotFound)
                        } else {
                            r matches Ok(p) && p.1@ == chunks[f] && p.0@ == spec_serialize_png(
                                chunks.remove(f),
                            )
                        }
                    },
                }
            }),
    {
        let mut png = match Png::from_bytes(png_bytes) {
            Ok(p) => p,
            Err(e) => {
                return Err(e);
            },
        };
        match png.remove_chunk(chunk_type.as_str()) {
            Some(chunk) => Ok((png.as_bytes(), chunk)),
            None => Err(ChunkError::ChunkTypeNotFound),
        }
    }
}

} // verus!
