use vstd::prelude::*;

use crate::be32::{
    be_to_u32, lemma_be32_roundtrip, read_be_u32, u32_be_bytes, u32_to_be,
};
use crate::chunk_error::ChunkError;
use crate::chunk_type::{all_letters, ChunkType};
use crate::crc32::{crc32_checksum, crc32_of};

verus! {

/// The mathematical content of a chunk: its 4 type bytes, its payload and
/// its stored CRC-32.
#[verifier::ext_equal]
pub ghost struct ChunkView {
    pub type_bytes: Seq<u8>,
    pub data: Seq<u8>,
    pub crc: u32,
}

impl ChunkView {
    /// Well-formed: exactly 4 type bytes, a payload that fits the 32-bit
    /// length field, and a CRC that is the checksum of type ++ payload.
    /// Every [`Chunk`] satisfies this by construction.
    pub open spec fn wf(self) -> bool {
        &&& self.type_bytes.len() == 4
        &&& self.data.len() < 0x1_0000_0000
        &&& self.crc == crc32_of(self.type_bytes + self.data)
    }

    /// The chunk's serialized record: big-endian 32-bit payload length,
    /// 4 type bytes, the payload, and the big-endian 32-bit CRC.
    pub open spec fn spec_serialize(self) -> Seq<u8> {
        u32_to_be(self.data.len() as u32) + self.type_bytes + self.data + u32_to_be(self.crc)
    }
}

/// The full record length a chunk starting at the head of `b` declares:
/// 12 framing bytes plus the payload length read from the first 4 bytes.
pub open spec fn chunk_record_len(b: Seq<u8>) -> int
    recommends
        b.len() >= 4,
{
    12 + be_to_u32(b.subrange(0, 4))
}

/// Parses the chunk record at the head of `b`, the declared record length
/// having been checked to fit: the type bytes must be ASCII letters and the
/// stored CRC must equal the checksum recomputed over type ++ payload.
pub open spec fn spec_parse_first_chunk(b: Seq<u8>) -> Result<ChunkView, ChunkError>
    recommends
        b.len() >= 12,
        chunk_record_len(b) <= b.len(),
{
    let len = be_to_u32(b.subrange(0, 4)) as int;
    let t = b.subrange(4, 8);
    let d = b.subrange(8, 8 + len);
    let stored = be_to_u32(b.subrange(8 + len, 12 + len));
    if !all_letters(t) {
        Err(ChunkError::InvalidChunkType)
    } else if stored != crc32_of(t + d) {
        Err(ChunkError::ChecksumMismatch)
    } else {
        Ok(ChunkView { type_bytes: t, data: d, crc: stored })
    }
}

/// Parses the chunk record at the head of `b`, returning the chunk and the
/// number of bytes its record occupies. Fails with `TruncatedChunk` when
/// fewer than 12 bytes remain or the declared payload length exceeds the
/// remaining bytes.
pub open spec fn spec_parse_chunk_at(b: Seq<u8>) -> Result<(ChunkView, int), ChunkError> {
    if b.len() < 12 {
        Err(ChunkError::TruncatedChunk)
    } else if chunk_record_len(b) > b.len() {
        Err(ChunkError::TruncatedChunk)
    } else {
        match spec_parse_first_chunk(b) {
            Ok(cv) => Ok((cv, chunk_record_len(b))),
            Err(e) => Err(e),
        }
    }
}

/// Parses `b` as exactly one chunk record: the declared record length must
/// match the buffer length exactly, or the parse fails with
/// `TruncatedChunk`.
pub open spec fn spec_parse_chunk(b: Seq<u8>) -> Result<ChunkView, ChunkError> {
    match spec_parse_chunk_at(b) {
        Ok((cv, used)) => if used == b.len() {
            Ok(cv)
        } else {
            Err(ChunkError::TruncatedChunk)
        },
        Err(e) => Err(e),
    }
}

/// One length-prefixed, typed, checksummed record of a PNG file.
///
/// The stored CRC is computed at construction time over the type bytes
/// followed by the payload, so it can never drift from the data it covers.
#[derive(Debug)]
pub struct Chunk {
    chunk_type: ChunkType,
    data: Vec<u8>,
    crc: u32,
}

impl View for Chunk {
    type V = ChunkView;

    closed spec fn view(&self) -> ChunkView {
        ChunkView { type_bytes: self.chunk_type@, data: self.data@, crc: self.crc }
    }
}

impl Clone for Chunk {
    fn clone(&self) -> (r: Self)
        ensures
            r@ == self@,
    {
        proof {
            use_type_invariant(&*self);
        }
        Chunk {
            chunk_type: self.chunk_type,
            data: vstd::slice::slice_to_vec(self.data.as_slice()),
            crc: self.crc,
        }
    }
}

impl Chunk {
    /// Every chunk is well-formed by construction: this invariant is
    /// established by the constructors and holds of every `Chunk` value.
    #[verifier::type_invariant]
    pub open spec fn inv(self) -> bool {
        self@.wf()
    }

    /// Builds a chunk from a type tag and a payload, computing the CRC-32
    /// over the type bytes followed by the payload.
    pub fn new(chunk_type: ChunkType, data: Vec<u8>) -> (r: Chunk)
        requires
            data@.len() < 0x1_0000_0000,
        ensures
            r@ == (ChunkView {
                type_bytes: chunk_type@,
                data: data@,
                crc: crc32_of(chunk_type@ + data@),
            }),
            r@.wf(),
    {
        let tb = chunk_type.bytes();
        let mut all_bytes: Vec<u8> = Vec::new();
        all_bytes.push(tb[0]);
        all_bytes.push(tb[1]);
        all_bytes.push(tb[2]);
        all_bytes.push(tb[3]);
        let mut i: usize = 0;
        while i < data.len()
            invariant
                0 <= i <= data@.len(),
                all_bytes@ =~= chunk_type@ + data@.take(i as int),
            decreases data@.len() - i,
        {
            all_bytes.push(data[i]);
            i += 1;
        }
        proof {
            assert(all_bytes@ =~= chunk_type@ + data@);
        }
        let crc = crc32_checksum(all_bytes.as_slice());
        Chunk { chunk_type, data, crc }
    }

    /// The payload length, as stored in the record's 32-bit length field.
    pub fn length(&self) -> (r: u32)
        ensures
            r == self@.data.len(),
    {
        proof {
            use_type_invariant(&*self);
        }
        self.data.len() as u32
    }

    /// The chunk's type tag.
    pub fn chunk_type(&self) -> (r: &ChunkType)
        ensures
            r@ == self@.type_bytes,
    {
        &self.chunk_type
    }

    /// The chunk's payload bytes.
    pub fn data(&self) -> (r: &[u8])
        ensures
            r@ == self@.data,
    {
        self.data.as_slice()
    }

    /// The chunk's CRC-32, computed at construction over type ++ payload.
    pub fn crc(&self) -> (r: u32)
        ensures
            r == self@.crc,
    {
        self.crc
    }

    /// The payload interpreted as UTF-8 text; fails with
    /// `InvalidUtf8Payload` on any other byte sequence.
    pub fn data_as_string(&self) -> (r: Result<String, ChunkError>)
        ensures
            vstd::utf8::valid_utf8(self@.data) ==> (r matches Ok(s) && s@
                == vstd::utf8::decode_utf8(self@.data)),
            !vstd::utf8::valid_utf8(self@.data) ==> r == Err::<String, ChunkError>(
                ChunkError::InvalidUtf8Payload,
            ),
    {
        match crate::text::utf8_to_string(self.data.as_slice()) {
            Some(s) => Ok(s),
            None => Err(ChunkError::InvalidUtf8Payload),
        }
    }

    /// Serializes the chunk to its on-disk record; the exact inverse of
    /// [`Chunk::from_bytes`] (see [`lemma_chunk_roundtrip`]).
    pub fn as_bytes(&self) -> (r: Vec<u8>)
        ensures
            r@ == self@.spec_serialize(),
    {
        proof {
            use_type_invariant(&*self);
        }
        let mut out: Vec<u8> = Vec::new();
        let lb = u32_be_bytes(self.data.len() as u32);
        out.push(lb[0]);
        out.push(lb[1]);
        out.push(lb[2]);
        out.push(lb[3]);
        let tb = self.chunk_type.bytes();
        out.push(tb[0]);
        out.push(tb[1]);
        out.push(tb[2]);
        out.push(tb[3]);
        proof {
            assert(out@ =~= u32_to_be(self@.data.len() as u32) + self@.type_bytes);
        }
        let mut i: usize = 0;
        while i < self.data.len()
            invariant
                0 <= i <= self@.data.len(),
                out@ =~= u32_to_be(self@.data.len() as u32) + self@.type_bytes + self@.data.take(
                    i as int,
                ),
                self.data@ == self@.data,
                self.crc == self@.crc,
            decreases self@.data.len() - i,
        {
            out.push(self.data[i]);
            i += 1;
        }
        let cb = u32_be_bytes(self.crc);
        out.push(cb[0]);
        out.push(cb[1]);
        out.push(cb[2]);
        out.push(cb[3]);
        proof {
            assert(out@ =~= self@.spec_serialize());
        }
        out
    }

    /// Parses the chunk record starting at `start`, returning the chunk and
    /// the position just past its record.
    pub fn parse_at(bytes: &[u8], start: usize) -> (r: Result<(Chunk, usize), ChunkError>)
        requires
            start <= bytes@.len(),
        ensures
            ({
                let tail = bytes@.skip(start as int);
                match spec_parse_chunk_at(tail) {
                    Ok((cv, used)) => {
                        &&& r matches Ok(p)
                        &&& p.0@ == cv
                        &&& p.1 == start + used
                        &&& p.1 <= bytes@.len()
                    },
                    Err(e) => r == Err::<(Chunk, usize), ChunkError>(e),
                }
            }),
    {
        let ghost tail = bytes@.skip(start as int);
        let n = bytes.len();
        if n - start < 12 {
            return Err(ChunkError::TruncatedChunk);
        }
        let len_u32 = read_be_u32(
            bytes[start],
            bytes[start + 1],
            bytes[start + 2],
            bytes[start + 3],
        );
        proof {
            assert(seq![bytes@[start as int], bytes@[start + 1], bytes@[start + 2], bytes@[start
                + 3]] =~= tail.subrange(0, 4));
        }
        let len = len_u32 as usize;
        if len > n - start - 12 {
            return Err(ChunkError::TruncatedChunk);
        }
        let t = [bytes[start + 4], bytes[start + 5], bytes[start + 6], bytes[start + 7]];
        proof {
            assert(t@ =~= tail.subrange(4, 8));
        }
        let chunk_type = match ChunkType::from_bytes(t) {
            Ok(ct) => ct,
            Err(e) => {
                return Err(e);
            },
        };
        let data_slice = vstd::slice::slice_subrange(bytes, start + 8, start + 8 + len);
        let data = vstd::slice::slice_to_vec(data_slice);
        proof {
            assert(data@ =~= tail.subrange(8, 8 + len_u32 as int));
        }
        let stored = read_be_u32(
            bytes[start + 8 + len],
            bytes[start + 9 + len],
            bytes[start + 10 + len],
            bytes[start + 11 + len],
        );
        proof {
            assert(seq![bytes@[start + 8 + len as int], bytes@[start + 9 + len as int], bytes@[
                start + 10 + len as int], bytes@[start + 11 + len as int]] =~= tail.subrange(
                8 + len_u32 as int,
                12 + len_u32 as int,
            ));
        }
        let chunk = Chunk::new(chunk_type, data);
        if chunk.crc() != stored {
            return Err(ChunkError::ChecksumMismatch);
        }
        proof {
            let parsed = spec_parse_chunk_at(tail)->Ok_0;
            assert(chunk@ =~= parsed.0);
        }
        Ok((chunk, start + 12 + len))
    }

    /// Parses `bytes` as exactly one chunk record; the record's declared
    /// length must account for the whole buffer.
    pub fn from_bytes(bytes: &[u8]) -> (r: Result<Chunk, ChunkError>)
        ensures
            ({
                match spec_parse_chunk(bytes@) {
                    Ok(cv) => r matches Ok(c) && c@ == cv,
                    Err(e) => r == Err::<Chunk, ChunkError>(e),
                }
            }),
    {
        proof {
            assert(bytes@.skip(0) =~= bytes@);
        }
        match Chunk::parse_at(bytes, 0) {
            Ok((chunk, next)) => {
                if next == bytes.len() {
                    Ok(chunk)
                } else {
                    Err(ChunkError::TruncatedChunk)
                }
            },
            Err(e) => Err(e),
        }
    }
}

/// A serialized chunk at the head of a longer buffer parses back to the
/// chunk itself, consuming exactly its own record, whenever the chunk is
/// well-formed and its type bytes are ASCII letters.
pub proof fn lemma_parse_chunk_at_prefix(cv: ChunkView, rest: Seq<u8>)
    requires
        cv.wf(),
        all_letters(cv.type_bytes),
    ensures
        spec_parse_chunk_at(cv.spec_serialize() + rest) == Ok::<(ChunkView, int), ChunkError>(
            (cv, cv.spec_serialize().len() as int),
        ),
        cv.spec_serialize().len() == 12 + cv.data.len(),
        chunk_record_len(cv.spec_serialize() + rest) == cv.spec_serialize().len(),
        spec_parse_first_chunk(cv.spec_serialize() + rest) == Ok::<ChunkView, ChunkError>(cv),
{
    let b = cv.spec_serialize() + rest;
    let len = cv.data.len() as int;
    lemma_be32_roundtrip(cv.data.len() as u32);
    lemma_be32_roundtrip(cv.crc);
    assert(cv.spec_serialize().len() == 12 + len);
    assert(b.subrange(0, 4) =~= u32_to_be(cv.data.len() as u32));
    assert(chunk_record_len(b) == 12 + len);
    assert(b.subrange(4, 8) =~= cv.type_bytes);
    assert(b.subrange(8, 8 + len) =~= cv.data);
    assert(b.subrange(8 + len, 12 + len) =~= u32_to_be(cv.crc));
    assert(spec_parse_first_chunk(b) == Ok::<ChunkView, ChunkError>(cv)) by {
        assert(b.subrange(4, 8) + b.subrange(8, 8 + len) =~= cv.type_bytes + cv.data);
        assert(spec_parse_first_chunk(b)->Ok_0 =~= cv);
    }
}

/// Round trip: serializing a well-formed chunk whose type bytes are ASCII
/// letters and parsing the record back yields the chunk unchanged — the
/// parsed type, payload and CRC are identical.
pub proof fn lemma_chunk_roundtrip(cv: ChunkView)
    requires
        cv.wf(),
        all_letters(cv.type_bytes),
    ensures
        spec_parse_chunk(cv.spec_serialize()) == Ok::<ChunkView, ChunkError>(cv),
{
    assert(cv.spec_serialize() + Seq::<u8>::empty() =~= cv.spec_serialize());
    lemma_parse_chunk_at_prefix(cv, Seq::<u8>::empty());
}

/// Checksum sensitivity: corrupting the bytes a record's CRC covers (its
/// type and payload) while keeping the length field and the stored CRC as
/// they were makes the parse fail with `ChecksumMismatch`, whenever the
/// corruption changes the checksum of the covered bytes and leaves the type
/// bytes ASCII letters.
pub proof fn lemma_checksum_detects_corruption(b1: Seq<u8>, b2: Seq<u8>)
    requires
        spec_parse_chunk(b1) is Ok,
        b2.len() == b1.len(),
        b2.subrange(0, 4) == b1.subrange(0, 4),
        b2.subrange(b2.len() - 4, b2.len() as int) == b1.subrange(b1.len() - 4, b1.len() as int),
        all_letters(b2.subrange(4, 8)),
        crc32_of(b2.subrange(4, b2.len() - 4)) != crc32_of(b1.subrange(4, b1.len() - 4)),
    ensures
        spec_parse_chunk(b2) == Err::<ChunkView, ChunkError>(ChunkError::ChecksumMismatch),
{
    let n = b1.len() as int;
    let len = be_to_u32(b1.subrange(0, 4)) as int;
    assert(n == 12 + len);
    assert(chunk_record_len(b2) == chunk_record_len(b1));
    let t1 = b1.subrange(4, 8);
    let d1 = b1.subrange(8, 8 + len);
    let t2 = b2.subrange(4, 8);
    let d2 = b2.subrange(8, 8 + len);
    assert(t1 + d1 =~= b1.subrange(4, n - 4));
    assert(t2 + d2 =~= b2.subrange(4, n - 4));
    let stored1 = be_to_u32(b1.subrange(8 + len, 12 + len));
    let stored2 = be_to_u32(b2.subrange(8 + len, 12 + len));
    assert(b1.subrange(8 + len, 12 + len) =~= b1.subrange(n - 4, n));
    assert(b2.subrange(8 + len, 12 + len) =~= b2.subrange(n - 4, n));
    assert(stored2 == stored1);
    assert(stored1 == crc32_of(b1.subrange(4, n - 4)));
    assert(stored2 != crc32_of(t2 + d2));
}

} // verus!
