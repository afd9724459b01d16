//! The checksum that guards the type and data of a chunk.

use vstd::prelude::*;

verus! {

/// The CRC-32/ISO-HDLC checksum of `bytes`: polynomial `0x04C11DB7`, reflected
/// input and output, initial value and final XOR all ones. This is the CRC-32
/// of zlib and of PNG.
///
/// The value is computed outside this crate and has no definition here. What
/// is known of it is what the contracts of this crate say.
pub uninterp spec fn crc32_iso_hdlc(bytes: Seq<u8>) -> u32;

/// Computes the checksum of `bytes` through `crc::Crc::<u32>::checksum`, on a
/// `Crc` made by `crc::Crc::<u32>::new` for the algorithm `crc::CRC_32_ISO_HDLC`.
///
/// Trusted, not proved: the call returns for every slice, and what it returns
/// depends on the bytes of the slice alone.
#[verifier::external_body]
pub(crate) fn checksum(bytes: &[u8]) -> (sum: u32)
    ensures
        sum == crc32_iso_hdlc(bytes@),
{
    crc::Crc::<u32>::new(&crc::CRC_32_ISO_HDLC).checksum(bytes)
}

} // verus!
