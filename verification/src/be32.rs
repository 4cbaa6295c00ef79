use vstd::prelude::*;

verus! {

/// The four bytes of `n` in big-endian order.
pub open spec fn u32_to_be(n: u32) -> Seq<u8> {
    seq![(n >> 24) as u8, (n >> 16) as u8, (n >> 8) as u8, n as u8]
}

/// The `u32` read from four bytes in big-endian order.
pub open spec fn be_to_u32(s: Seq<u8>) -> u32
    recommends
        s.len() == 4,
{
    (((s[0] as u32) << 24) | ((s[1] as u32) << 16) | ((s[2] as u32) << 8) | (s[3] as u32)) as u32
}

/// Encoding a `u32` and reading the bytes back gives the same value.
pub proof fn lemma_be32_roundtrip(n: u32)
    ensures
        be_to_u32(u32_to_be(n)) == n,
{
    assert(((((n >> 24) as u8 as u32) << 24) | (((n >> 16) as u8 as u32) << 16) | (((n >> 8) as u8
        as u32) << 8) | ((n as u8) as u32)) as u32 == n) by (bit_vector);
}

/// Reading four bytes as a `u32` and encoding it again gives the same bytes.
pub proof fn lemma_be32_inverse(s: Seq<u8>)
    requires
        s.len() == 4,
    ensures
        u32_to_be(be_to_u32(s)) == s,
{
    let b0 = s[0];
    let b1 = s[1];
    let b2 = s[2];
    let b3 = s[3];
    let n = be_to_u32(s);
    assert((((((b0 as u32) << 24) | ((b1 as u32) << 16) | ((b2 as u32) << 8) | (b3 as u32)) as u32)
        >> 24) as u8 == b0) by (bit_vector);
    assert((((((b0 as u32) << 24) | ((b1 as u32) << 16) | ((b2 as u32) << 8) | (b3 as u32)) as u32)
        >> 16) as u8 == b1) by (bit_vector);
    assert((((((b0 as u32) << 24) | ((b1 as u32) << 16) | ((b2 as u32) << 8) | (b3 as u32)) as u32)
        >> 8) as u8 == b2) by (bit_vector);
    assert(((((b0 as u32) << 24) | ((b1 as u32) << 16) | ((b2 as u32) << 8) | (b3 as u32)) as u32)
        as u8 == b3) by (bit_vector);
    assert(u32_to_be(n) =~= s);
}

/// The big-endian bytes of `n`, as an array.
pub fn u32_be_bytes(n: u32) -> (r: [u8; 4])
    ensures
        r@ == u32_to_be(n),
{
    let b0: u8 = #[verifier::truncate] ((n >> 24) as u8);
    let b1: u8 = #[verifier::truncate] ((n >> 16) as u8);
    let b2: u8 = #[verifier::truncate] ((n >> 8) as u8);
    let b3: u8 = #[verifier::truncate] (n as u8);
    let r = [b0, b1, b2, b3];
    proof {
        assert(r@ =~= u32_to_be(n));
    }
    r
}

/// The `u32` read from four bytes in big-endian order.
pub fn read_be_u32(b0: u8, b1: u8, b2: u8, b3: u8) -> (r: u32)
    ensures
        r == be_to_u32(seq![b0, b1, b2, b3]),
{
    ((b0 as u32) << 24) | ((b1 as u32) << 16) | ((b2 as u32) << 8) | (b3 as u32)
}

} // verus!
