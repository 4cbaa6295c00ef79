use vstd::prelude::*;

use crate::chunk_error::ChunkError;

use vstd::string::StringSliceAdditionalSpecFns;

verus! {


/// True when `b` is an ASCII letter (`A`-`Z` or `a`-`z`).
pub open spec fn is_letter(b: u8) -> bool {
    is_upper(b) || is_lower(b)
}

/// True when `b` is an uppercase ASCII letter.
pub open spec fn is_upper(b: u8) -> bool {
    65 <= b <= 90
}

/// True when `b` is a lowercase ASCII letter.
pub open spec fn is_lower(b: u8) -> bool {
    97 <= b <= 122
}

/// True when every byte of `s` is an ASCII letter.
pub open spec fn all_letters(s: Seq<u8>) -> bool {
    forall|i: int| 0 <= i < s.len() ==> is_letter(#[trigger] s[i])
}

/// A 4-byte PNG chunk type tag.
///
/// The case of each byte encodes a flag bit: byte 0 uppercase means the
/// chunk is critical, byte 1 uppercase means it is public, byte 2 uppercase
/// means the reserved bit is valid, and byte 3 lowercase means the chunk is
/// safe to copy.
///
/// [`ChunkType::from_bytes`] is the relaxed constructor used when reading
/// existing files: it accepts any four ASCII letters, whatever the case of
/// byte 2. [`ChunkType::from_str`] is the strict constructor used for
/// user-supplied tags: it demands exactly four bytes with byte 2 uppercase.
#[derive(Debug, Clone, Copy, PartialEq, Eq)]
pub struct ChunkType {
    chunk: [u8; 4],
}

impl View for ChunkType {
    type V = Seq<u8>;

    closed spec fn view(&self) -> Seq<u8> {
        self.chunk@
    }
}

impl ChunkType {
    /// The four raw bytes of the tag.
    pub fn bytes(&self) -> (r: [u8; 4])
        ensures
            r@ == self@,
    {
        self.chunk
    }

    /// True when the chunk is critical: byte 0 is uppercase.
    pub fn is_critical(&self) -> (r: bool)
        ensures
            r == is_upper(self@[0]),
    {
        let b = self.chunk[0];
        65 <= b && b <= 90
    }

    /// True when the chunk is public: byte 1 is uppercase.
    pub fn is_public(&self) -> (r: bool)
        ensures
            r == is_upper(self@[1]),
    {
        let b = self.chunk[1];
        65 <= b && b <= 90
    }

    /// True when the chunk is safe to copy: byte 3 is lowercase.
    pub fn is_safe_to_copy(&self) -> (r: bool)
        ensures
            r == is_lower(self@[3]),
    {
        let b = self.chunk[3];
        97 <= b && b <= 122
    }

    /// True when `byte`, standing at index 2 of a tag, marks the reserved
    /// bit as valid: it is uppercase.
    pub fn is_reserved_bit_valid(byte: u8) -> (r: bool)
        ensures
            r == is_upper(byte),
    {
        65 <= byte && byte <= 90
    }

    /// True when `byte` may appear in a tag: it is an ASCII letter.
    pub fn is_valid_byte(byte: &u8) -> (r: bool)
        ensures
            r == is_letter(*byte),
    {
        let b = *byte;
        (65 <= b && b <= 90) || (97 <= b && b <= 122)
    }

    /// True when `chunk` has a valid reserved bit at index 2 and holds only
    /// ASCII letters.
    pub fn is_valid(chunk: &[u8]) -> (r: bool)
        requires
            chunk@.len() >= 3,
        ensures
            r == (is_upper(chunk@[2]) && all_letters(chunk@)),
    {
        if !ChunkType::is_reserved_bit_valid(chunk[2]) {
            return false;
        }
        let n = chunk.len();
        let mut i: usize = 0;
        while i < n
            invariant
                n == chunk@.len(),
                0 <= i <= n,
                forall|j: int| 0 <= j < i ==> is_letter(#[trigger] chunk@[j]),
            decreases n - i,
        {
            if !ChunkType::is_valid_byte(&chunk[i]) {
                return false;
            }
            i += 1;
        }
        true
    }

    /// The relaxed constructor: accepts any four ASCII letters, so that
    /// tags read from existing files round-trip whatever the case of the
    /// reserved bit.
    pub fn from_bytes(bytes: [u8; 4]) -> (r: Result<ChunkType, ChunkError>)
        ensures
            all_letters(bytes@) ==> (r matches Ok(t) && t@ == bytes@),
            !all_letters(bytes@) ==> r == Err::<ChunkType, ChunkError>(ChunkError::InvalidChunkType),
    {
        let mut i: usize = 0;
        while i < 4
            invariant
                0 <= i <= 4,
                forall|j: int| 0 <= j < i ==> is_letter(#[trigger] bytes@[j]),
            decreases 4 - i,
        {
            if !ChunkType::is_valid_byte(&bytes[i]) {
                return Err(ChunkError::InvalidChunkType);
            }
            i += 1;
        }
        Ok(ChunkType { chunk: bytes })
    }

    /// The strict constructor for user-supplied tags: the string must be
    /// exactly four bytes long and its byte at index 2 must be uppercase.
    pub fn from_str(s: &str) -> (r: Result<ChunkType, ChunkError>)
        ensures
            ({
                let bs = s.spec_bytes();
                &&& (bs.len() == 4 && is_upper(bs[2])) ==> (r matches Ok(t) && t@ == bs)
                &&& (bs.len() != 4 || !is_upper(bs[2])) ==> r == Err::<
                    ChunkType,
                    ChunkError,
                >(ChunkError::InvalidChunkType)
            }),
    {
        let bytes = s.as_bytes();
        if bytes.len() != 4 {
            return Err(ChunkError::InvalidChunkType);
        }
        if !ChunkType::is_reserved_bit_valid(bytes[2]) {
            return Err(ChunkError::InvalidChunkType);
        }
        let chunk = [bytes[0], bytes[1], bytes[2], bytes[3]];
        proof {
            assert(chunk@ =~= s.spec_bytes());
        }
        Ok(ChunkType { chunk })
    }

    /// The tag as a string; the inverse of [`ChunkType::from_str`] for
    /// ASCII-letter tags.
    pub fn to_string(&self) -> (r: String)
        requires
            vstd::utf8::valid_utf8(self@),
        ensures
            r@ == vstd::utf8::decode_utf8(self@),
    {
        let bytes = self.chunk.as_slice();
        let s = crate::text::utf8_to_string(bytes);
        match s {
            Some(r) => r,
            None => {
                proof {
                    assert(false);
                }
                String::new()
            },
        }
    }
}

} // verus!
