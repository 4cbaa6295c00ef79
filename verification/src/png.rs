use vstd::prelude::*;

use vstd::string::StringSliceAdditionalSpecFns;

use crate::be32::lemma_be32_inverse;
use crate::chunk::{
    chunk_record_len, spec_parse_chunk_at, spec_parse_first_chunk, Chunk, ChunkView,
};
use crate::chunk_error::ChunkError;
use crate::chunk_type::all_letters;

verus! {

/// The fixed 8-byte signature every PNG byte stream begins with.
pub open spec fn spec_signature() -> Seq<u8> {
    seq![137u8, 80u8, 78u8, 71u8, 13u8, 10u8, 26u8, 10u8]
}

/// Parses a concatenation of chunk records until the buffer is exhausted.
/// Each record advances the parse past exactly the bytes it occupies; any
/// failure aborts the whole parse.
pub open spec fn spec_parse_chunks(b: Seq<u8>) -> Result<Seq<ChunkView>, ChunkError>
    decreases b.len(),
{
    if b.len() == 0 {
        Ok(Seq::empty())
    } else if b.len() < 12 || chunk_record_len(b) > b.len() {
        Err(ChunkError::TruncatedChunk)
    } else {
        match spec_parse_first_chunk(b) {
            Err(e) => Err(e),
            Ok(cv) => match spec_parse_chunks(b.skip(chunk_record_len(b))) {
                Err(e) => Err(e),
                Ok(rest) => Ok(seq![cv] + rest),
            },
        }
    }
}

/// Parses a full PNG byte stream: the 8-byte signature followed by chunk
/// records until the end of the buffer.
pub open spec fn spec_parse_png(b: Seq<u8>) -> Result<Seq<ChunkView>, ChunkError> {
    if b.len() < 8 || b.subrange(0, 8) != spec_signature() {
        Err(ChunkError::SignatureMismatch)
    } else {
        spec_parse_chunks(b.skip(8))
    }
}

/// The concatenation of the chunks' serialized records, in sequence order.
pub open spec fn spec_serialize_chunks(s: Seq<ChunkView>) -> Seq<u8>
    decreases s.len(),
{
    if s.len() == 0 {
        Seq::empty()
    } else {
        s[0].spec_serialize() + spec_serialize_chunks(s.skip(1))
    }
}

/// The full serialized container: signature, then every chunk in order.
pub open spec fn spec_serialize_png(s: Seq<ChunkView>) -> Seq<u8> {
    spec_signature() + spec_serialize_chunks(s)
}

/// True when the chunk's type tag is exactly `tag`.
pub open spec fn tag_matches(cv: ChunkView, tag: Seq<u8>) -> bool {
    cv.type_bytes == tag
}

/// The chunks of `s` whose type tag is `tag`, in their original order.
pub open spec fn spec_chunks_by_type(s: Seq<ChunkView>, tag: Seq<u8>) -> Seq<ChunkView> {
    s.filter(|cv: ChunkView| tag_matches(cv, tag))
}

/// The index of the first chunk of `s` whose type tag is `tag`, or -1 when
/// no chunk matches.
pub open spec fn spec_find_chunk(s: Seq<ChunkView>, tag: Seq<u8>) -> int
    decreases s.len(),
{
    if s.len() == 0 {
        -1
    } else if tag_matches(s[0], tag) {
        0
    } else {
        let r = spec_find_chunk(s.skip(1), tag);
        if r < 0 {
            -1
        } else {
            r + 1
        }
    }
}

/// When no chunk of `s` matches `tag`, the find comes up empty.
pub proof fn lemma_find_chunk_none(s: Seq<ChunkView>, tag: Seq<u8>)
    requires
        forall|i: int| 0 <= i < s.len() ==> !tag_matches(#[trigger] s[i], tag),
    ensures
        spec_find_chunk(s, tag) == -1,
    decreases s.len(),
{
    if s.len() > 0 {
        lemma_find_chunk_none(s.skip(1), tag);
    }
}

/// When the chunk at `i` matches `tag` and no earlier chunk does, the find
/// returns exactly `i`.
pub proof fn lemma_find_chunk_at(s: Seq<ChunkView>, tag: Seq<u8>, i: int)
    requires
        0 <= i < s.len(),
        tag_matches(s[i], tag),
        forall|j: int| 0 <= j < i ==> !tag_matches(#[trigger] s[j], tag),
    ensures
        spec_find_chunk(s, tag) == i,
    decreases s.len(),
{
    if i > 0 {
        lemma_find_chunk_at(s.skip(1), tag, i - 1);
    }
}

/// Append then remove restores the sequence: pushing a chunk whose tag no
/// existing chunk carries and then removing the first chunk of that tag
/// finds exactly the pushed chunk and leaves the original sequence.
pub proof fn lemma_append_then_remove(s: Seq<ChunkView>, c: ChunkView, tag: Seq<u8>)
    requires
        forall|i: int| 0 <= i < s.len() ==> !tag_matches(#[trigger] s[i], tag),
        tag_matches(c, tag),
    ensures
        spec_find_chunk(s.push(c), tag) == s.len(),
        s.push(c)[s.len() as int] == c,
        s.push(c).remove(s.len() as int) == s,
{
    lemma_find_chunk_at(s.push(c), tag, s.len() as int);
    assert(s.push(c).remove(s.len() as int) =~= s);
}

/// Serializing a sequence with one more chunk appends that chunk's record.
proof fn lemma_serialize_chunks_push(s: Seq<ChunkView>, c: ChunkView)
    ensures
        spec_serialize_chunks(s.push(c)) == spec_serialize_chunks(s) + c.spec_serialize(),
    decreases s.len(),
{
    if s.len() == 0 {
        assert(s.push(c)[0] == c);
        assert(s.push(c).skip(1) =~= Seq::<ChunkView>::empty());
        assert(spec_serialize_chunks(Seq::<ChunkView>::empty()) == Seq::<u8>::empty());
        assert(s =~= Seq::<ChunkView>::empty());
        assert(spec_serialize_chunks(s.push(c)) == c.spec_serialize() + Seq::<u8>::empty());
        assert(spec_serialize_chunks(s.push(c)) =~= spec_serialize_chunks(s)
            + c.spec_serialize());
    } else {
        assert(s.push(c)[0] == s[0]);
        assert(s.push(c).skip(1) =~= s.skip(1).push(c));
        lemma_serialize_chunks_push(s.skip(1), c);
        assert(spec_serialize_chunks(s.push(c)) == s[0].spec_serialize() + (spec_serialize_chunks(
            s.skip(1),
        ) + c.spec_serialize()));
        assert(spec_serialize_chunks(s) == s[0].spec_serialize() + spec_serialize_chunks(
            s.skip(1),
        ));
        assert(spec_serialize_chunks(s.push(c)) =~= spec_serialize_chunks(s)
            + c.spec_serialize());
    }
}

/// Filtering a one-element sequence keeps or drops that element.
proof fn lemma_filter_singleton(c: ChunkView, pred: spec_fn(ChunkView) -> bool)
    ensures
        seq![c].filter(pred) == if pred(c) {
            seq![c]
        } else {
            Seq::<ChunkView>::empty()
        },
{
    reveal_with_fuel(Seq::filter, 3);
    assert(seq![c].drop_last() =~= Seq::<ChunkView>::empty());
    assert(Seq::<ChunkView>::empty().filter(pred) == Seq::<ChunkView>::empty());
    assert(seq![c].last() == c);
    if pred(c) {
        assert(seq![c].filter(pred) =~= seq![c]);
    } else {
        assert(seq![c].filter(pred) =~= Seq::<ChunkView>::empty());
    }
}

/// An ordered sequence of chunks behind the fixed 8-byte PNG signature.
///
/// The sequence order is the on-disk order and is preserved across
/// mutation; duplicate type tags are permitted. The signature is a
/// constant, not data: it is checked on parse and written on serialize.
#[derive(Debug)]
pub struct Png {
    chunks: Vec<Chunk>,
}

impl View for Png {
    type V = Seq<ChunkView>;

    closed spec fn view(&self) -> Seq<ChunkView> {
        self.chunks@.map_values(|c: Chunk| c@)
    }
}

impl Png {
    /// An empty container: the signature and no chunks.
    pub fn new() -> (r: Png)
        ensures
            r@ == Seq::<ChunkView>::empty(),
    {
        let r = Png { chunks: Vec::new() };
        proof {
            assert(r@ =~= Seq::<ChunkView>::empty());
        }
        r
    }

    /// The chunks, in on-disk order.
    pub fn chunks(&self) -> (r: &Vec<Chunk>)
        ensures
            r@.map_values(|c: Chunk| c@) == self@,
    {
        &self.chunks
    }

    /// Parses a PNG byte stream: the buffer must begin with the 8-byte
    /// signature, and the rest is consumed as chunk records until the end
    /// of the buffer. Any chunk failure aborts the whole parse.
    pub fn from_bytes(bytes: &[u8]) -> (r: Result<Png, ChunkError>)
        ensures
            ({
                match spec_parse_png(bytes@) {
                    Ok(s) => r matches Ok(p) && p@ == s,
                    Err(e) => r == Err::<Png, ChunkError>(e),
                }
            }),
    {
        if bytes.len() < 8 {
            return Err(ChunkError::SignatureMismatch);
        }
        if !(bytes[0] == 137 && bytes[1] == 80 && bytes[2] == 78 && bytes[3] == 71 && bytes[4]
            == 13 && bytes[5] == 10 && bytes[6] == 26 && bytes[7] == 10) {
            proof {
                assert(bytes@.subrange(0, 8) != spec_signature());
            }
            return Err(ChunkError::SignatureMismatch);
        }
        proof {
            assert(bytes@.subrange(0, 8) =~= spec_signature());
        }
        let n = bytes.len();
        let mut chunks: Vec<Chunk> = Vec::new();
        let mut pos: usize = 8;
        proof {
            assert(chunks@.map_values(|c: Chunk| c@) =~= Seq::<ChunkView>::empty());
        }
        while pos < n
            invariant
                8 <= pos <= n,
                n == bytes@.len(),
                bytes@.subrange(0, 8) == spec_signature(),
                spec_parse_chunks(bytes@.skip(8)) == (match spec_parse_chunks(
                    bytes@.skip(pos as int),
                ) {
                    Ok(rest) => Ok::<Seq<ChunkView>, ChunkError>(
                        chunks@.map_values(|c: Chunk| c@) + rest,
                    ),
                    Err(e) => Err::<Seq<ChunkView>, ChunkError>(e),
                }),
            decreases n - pos,
        {
            let ghost tail = bytes@.skip(pos as int);
            let ghost done = chunks@.map_values(|c: Chunk| c@);
            match Chunk::parse_at(bytes, pos) {
                Ok((chunk, next)) => {
                    proof {
                        let used = chunk_record_len(tail);
                        assert(tail.skip(used) =~= bytes@.skip(next as int));
                    }
                    chunks.push(chunk);
                    proof {
                        assert(chunks@.map_values(|c: Chunk| c@) =~= done.push(chunk@));
                        if spec_parse_chunks(bytes@.skip(next as int)) is Ok {
                            assert(done + (seq![chunk@] + spec_parse_chunks(
                                bytes@.skip(next as int),
                            )->Ok_0) =~= done.push(chunk@) + spec_parse_chunks(
                                bytes@.skip(next as int),
                            )->Ok_0);
                        }
                    }
                    pos = next;
                },
                Err(e) => {
                    proof {
                        assert(tail.len() > 0);
                        assert(spec_parse_chunks(tail) == Err::<Seq<ChunkView>, ChunkError>(e));
                    }
                    return Err(e);
                },
            }
        }
        proof {
            assert(bytes@.skip(pos as int) =~= Seq::<u8>::empty());
            let done = chunks@.map_values(|c: Chunk| c@);
            assert(done + Seq::<ChunkView>::empty() =~= done);
        }
        Ok(Png { chunks })
    }

    /// Serializes the container: the signature followed by every chunk's
    /// record, in sequence order. The exact inverse of [`Png::from_bytes`]
    /// (see [`lemma_png_roundtrip`]).
    pub fn as_bytes(&self) -> (r: Vec<u8>)
        ensures
            r@ == spec_serialize_png(self@),
    {
        let mut out: Vec<u8> = Vec::new();
        out.push(137);
        out.push(80);
        out.push(78);
        out.push(71);
        out.push(13);
        out.push(10);
        out.push(26);
        out.push(10);
        proof {
            assert(out@ =~= spec_signature());
            assert(self@.take(0) =~= Seq::<ChunkView>::empty());
            assert(out@ =~= spec_signature() + spec_serialize_chunks(self@.take(0)));
        }
        let n = self.chunks.len();
        let mut i: usize = 0;
        while i < n
            invariant
                0 <= i <= n,
                n == self.chunks@.len(),
                self@.len() == n,
                out@ == spec_signature() + spec_serialize_chunks(self@.take(i as int)),
            decreases n - i,
        {
            let mut record = self.chunks[i].as_bytes();
            proof {
                assert(self@[i as int] == self.chunks@[i as int]@);
                assert(self@.take(i + 1) =~= self@.take(i as int).push(self@[i as int]));
                lemma_serialize_chunks_push(self@.take(i as int), self@[i as int]);
            }
            out.append(&mut record);
            proof {
                assert(out@ =~= spec_signature() + spec_serialize_chunks(self@.take(i + 1)));
            }
            i += 1;
        }
        proof {
            assert(self@.take(n as int) =~= self@);
        }
        out
    }

    /// Appends a chunk at the end of the sequence; the signature and the
    /// existing chunks are untouched.
    pub fn append_chunk(&mut self, chunk: Chunk)
        ensures
            final(self)@ == old(self)@.push(chunk@),
    {
        let ghost done = self.chunks@.map_values(|c: Chunk| c@);
        self.chunks.push(chunk);
        proof {
            assert(self.chunks@.map_values(|c: Chunk| c@) =~= done.push(chunk@));
        }
    }

    /// All chunks whose type tag's byte form equals `chunk_type`, in their
    /// original order; empty when none match.
    pub fn chunk_by_type(&self, chunk_type: &str) -> (r: Vec<Chunk>)
        ensures
            r@.map_values(|c: Chunk| c@) == spec_chunks_by_type(self@, chunk_type.spec_bytes()),
    {
        let ghost tag = chunk_type.spec_bytes();
        let ghost pred = |cv: ChunkView| tag_matches(cv, tag);
        let tag_bytes = chunk_type.as_bytes();
        let n = self.chunks.len();
        let mut out: Vec<Chunk> = Vec::new();
        proof {
            reveal(Seq::filter);
            assert(out@.map_values(|c: Chunk| c@) =~= self@.take(0).filter(pred));
        }
        let mut i: usize = 0;
        while i < n
            invariant
                0 <= i <= n,
                n == self.chunks@.len(),
                self@.len() == n,
                tag == chunk_type.spec_bytes(),
                tag_bytes@ == tag,
                pred == (|cv: ChunkView| tag_matches(cv, tag)),
                out@.map_values(|c: Chunk| c@) == self@.take(i as int).filter(pred),
            decreases n - i,
        {
            let ghost out_views = out@.map_values(|c: Chunk| c@);
            proof {
                assert(self@[i as int] == self.chunks@[i as int]@);
                assert(self@.take(i + 1) =~= self@.take(i as int) + seq![self@[i as int]]);
                Seq::<ChunkView>::filter_distributes_over_add(
                    self@.take(i as int),
                    seq![self@[i as int]],
                    pred,
                );
                lemma_filter_singleton(self@[i as int], pred);
            }
            if chunk_has_tag(&self.chunks[i], tag_bytes) {
                out.push(self.chunks[i].clone());
                proof {
                    assert(out@.map_values(|c: Chunk| c@) =~= out_views.push(self@[i as int]));
                    assert(out@.map_values(|c: Chunk| c@) =~= self@.take(i + 1).filter(pred));
                }
            } else {
                proof {
                    assert(out@.map_values(|c: Chunk| c@) =~= self@.take(i + 1).filter(pred));
                }
            }
            i += 1;
        }
        proof {
            assert(self@.take(n as int) =~= self@);
        }
        out
    }

    /// Removes and returns the first chunk whose type tag's byte form
    /// equals `chunk_type`, preserving the relative order of the remaining
    /// chunks; `None`, and no change, when no chunk matches.
    pub fn remove_chunk(&mut self, chunk_type: &str) -> (r: Option<Chunk>)
        ensures
            ({
                let tag = chunk_type.spec_bytes();
                let f = spec_find_chunk(old(self)@, tag);
                &&& f == -1 ==> r is None && final(self)@ == old(self)@
                &&& f >= 0 ==> (r matches Some(c) && c@ == old(self)@[f] && final(self)@ == old(
                    self,
                )@.remove(f))
            }),
    {
        let ghost tag = chunk_type.spec_bytes();
        let tag_bytes = chunk_type.as_bytes();
        let n = self.chunks.len();
        let mut i: usize = 0;
        while i < n
            invariant
                0 <= i <= n,
                n == self.chunks@.len(),
                self.chunks@ == old(self).chunks@,
                tag == chunk_type.spec_bytes(),
                tag_bytes@ == tag,
                forall|j: int| 0 <= j < i ==> !tag_matches(#[trigger] self@[j], tag),
            decreases n - i,
        {
            if chunk_has_tag(&self.chunks[i], tag_bytes) {
                proof {
                    lemma_find_chunk_at(self@, tag, i as int);
                }
                let ghost before = self.chunks@.map_values(|c: Chunk| c@);
                let c = self.chunks.remove(i);
                proof {
                    assert(self.chunks@.map_values(|c: Chunk| c@) =~= before.remove(i as int));
                }
                return Some(c);
            }
            i += 1;
        }
        proof {
            lemma_find_chunk_none(self@, tag);
        }
        None
    }
}

/// True when the chunk's 4 type bytes equal `tag_bytes`.
fn chunk_has_tag(chunk: &Chunk, tag_bytes: &[u8]) -> (r: bool)
    ensures
        r == tag_matches(chunk@, tag_bytes@),
{
    proof {
        use_type_invariant(&*chunk);
    }
    if tag_bytes.len() != 4 {
        return false;
    }
    let tb = chunk.chunk_type().bytes();
    let r = tb[0] == tag_bytes[0] && tb[1] == tag_bytes[1] && tb[2] == tag_bytes[2] && tb[3]
        == tag_bytes[3];
    proof {
        if r {
            assert(chunk@.type_bytes =~= tag_bytes@);
        }
    }
    r
}

/// Round trip: serializing the chunk sequence parsed from any well-formed
/// concatenation of chunk records reproduces those bytes exactly.
#[verifier::rlimit(50)]
pub proof fn lemma_parse_chunks_roundtrip(b: Seq<u8>)
    requires
        spec_parse_chunks(b) is Ok,
    ensures
        spec_serialize_chunks(spec_parse_chunks(b)->Ok_0) == b,
    decreases b.len(),
{
    if b.len() == 0 {
        assert(spec_serialize_chunks(spec_parse_chunks(b)->Ok_0) =~= b);
    } else {
        let len = crate::be32::be_to_u32(b.subrange(0, 4)) as int;
        let used = chunk_record_len(b);
        let cv = spec_parse_first_chunk(b)->Ok_0;
        lemma_be32_inverse(b.subrange(0, 4));
        lemma_be32_inverse(b.subrange(8 + len, 12 + len));
        assert(cv.spec_serialize() =~= b.subrange(0, used));
        lemma_parse_chunks_roundtrip(b.skip(used));
        let parsed = spec_parse_chunks(b)->Ok_0;
        assert(parsed[0] == cv);
        assert(parsed.skip(1) =~= spec_parse_chunks(b.skip(used))->Ok_0);
        assert(b.subrange(0, used) + b.skip(used) =~= b);
        assert(spec_serialize_chunks(parsed) =~= b);
    }
}

/// Round trip: serializing a container parsed from a well-formed PNG byte
/// stream reproduces the original bytes exactly.
#[verifier::rlimit(50)]
pub proof fn lemma_png_roundtrip(b: Seq<u8>)
    requires
        spec_parse_png(b) is Ok,
    ensures
        spec_serialize_png(spec_parse_png(b)->Ok_0) == b,
{
    assert(b.len() >= 8 && b.subrange(0, 8) == spec_signature());
    lemma_parse_chunks_roundtrip(b.skip(8));
    let parsed = spec_parse_png(b)->Ok_0;
    assert(spec_serialize_chunks(parsed) == b.skip(8));
    assert(spec_signature() + b.skip(8) =~= b);
}

/// The other direction of the round trip: a serialized chunk sequence
/// parses back to the same sequence, whenever every chunk is well-formed
/// with ASCII-letter type bytes.
#[verifier::rlimit(50)]
pub proof fn lemma_serialize_chunks_parse(s: Seq<ChunkView>)
    requires
        forall|i: int|
            0 <= i < s.len() ==> (#[trigger] s[i]).wf() && all_letters(s[i].type_bytes),
    ensures
        spec_parse_chunks(spec_serialize_chunks(s)) == Ok::<Seq<ChunkView>, ChunkError>(s),
    decreases s.len(),
{
    if s.len() == 0 {
        assert(spec_serialize_chunks(s) == Seq::<u8>::empty());
        assert(spec_parse_chunks(Seq::<u8>::empty()) == Ok::<Seq<ChunkView>, ChunkError>(
            Seq::<ChunkView>::empty(),
        ));
        assert(s =~= Seq::<ChunkView>::empty());
    } else {
        let b = spec_serialize_chunks(s);
        let rest = spec_serialize_chunks(s.skip(1));
        crate::chunk::lemma_parse_chunk_at_prefix(s[0], rest);
        assert(b == s[0].spec_serialize() + rest);
        let used = s[0].spec_serialize().len() as int;
        assert(b.len() == used + rest.len());
        assert(b.skip(used) =~= rest);
        lemma_serialize_chunks_parse(s.skip(1));
        assert(seq![s[0]] + s.skip(1) =~= s);
    }
}

/// The other direction of the container round trip: serializing any
/// sequence of well-formed, letter-tagged chunks and parsing the result
/// yields the same sequence.
#[verifier::rlimit(50)]
pub proof fn lemma_png_serialize_parse(s: Seq<ChunkView>)
    requires
        forall|i: int|
            0 <= i < s.len() ==> (#[trigger] s[i]).wf() && all_letters(s[i].type_bytes),
    ensures
        spec_parse_png(spec_serialize_png(s)) == Ok::<Seq<ChunkView>, ChunkError>(s),
{
    let b = spec_serialize_png(s);
    assert(b.len() >= 8);
    assert(b.subrange(0, 8) =~= spec_signature());
    assert(b.skip(8) =~= spec_serialize_chunks(s));
    lemma_serialize_chunks_parse(s);
}

} // verus!
