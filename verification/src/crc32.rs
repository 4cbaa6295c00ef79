use vstd::prelude::*;

verus! {

/// The CRC-32 checksum (ISO-HDLC polynomial, the PNG/zlib variant) of a
/// byte sequence. The checksum is a pure function of the bytes; its value
/// is not spelled out here, only named, and [`crc32_checksum`] is trusted
/// to compute it.
pub uninterp spec fn crc32_of(bytes: Seq<u8>) -> u32;

/// Relies on `crc::Crc::<u32>::checksum` with the `CRC_32_ISO_HDLC`
/// algorithm: a deterministic checksum of the byte slice, named
/// [`crc32_of`].
#[verifier::external_body]
pub(crate) fn crc32_checksum(bytes: &[u8]) -> (r: u32)
    ensures
        r == crc32_of(bytes@),
{
    crc::Crc::<u32>::new(&crc::CRC_32_ISO_HDLC).checksum(bytes)
}

} // verus!
