//! The CRC-32 checksum of chunks.

use vstd::prelude::*;

verus! {

/// The CRC-32/ISO-HDLC checksum of a byte sequence.
pub uninterp spec fn crc32_iso_hdlc(bytes: Seq<u8>) -> u32;

/// Computes the checksum of `bytes` with `crc::Crc::<u32>::checksum`, on a
/// `Crc` made by `crc::Crc::<u32>::new` for `crc::CRC_32_ISO_HDLC`. The
/// contract only names the result, as `crc32_iso_hdlc(bytes)`.
#[verifier::external_body]
pub(crate) fn crc32(bytes: &[u8]) -> (r: u32)
    ensures
        r == crc32_iso_hdlc(bytes@),
{
    crc::Crc::<u32>::new(&crc::CRC_32_ISO_HDLC).checksum(bytes)
}

} // verus!
