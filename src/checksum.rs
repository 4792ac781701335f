use vstd::prelude::*;

verus! {

/// The CRC-32/ISO-HDLC checksum of a byte sequence (reflected polynomial
/// 0x04C11DB7, initial register and final XOR 0xFFFFFFFF), as the `crc`
/// crate computes it.
pub uninterp spec fn crc32_of(bytes: Seq<u8>) -> u32;

/// Relies on `crc::Crc::<u32>::checksum` with the `crc::CRC_32_ISO_HDLC`
/// algorithm: a pure function of the bytes, which does not panic.
#[verifier::external_body]
pub(crate) fn checksum(bytes: &[u8]) -> (r: u32)
    ensures
        r == crc32_of(bytes@),
{
    crc::Crc::<u32>::new(&crc::CRC_32_ISO_HDLC).checksum(bytes)
}

} // verus!
