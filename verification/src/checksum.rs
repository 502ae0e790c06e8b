//! The CRC-32 checksum of the IEEE 802.3 polynomial.

use vstd::prelude::*;

verus! {

/// The CRC-32/IEEE checksum of `bytes`, as the `crc` crate computes it. It is
/// a function of the bytes alone; nothing else is stated of it here.
pub uninterp spec fn crc32_ieee(bytes: Seq<u8>) -> u32;

/// Trusted: `crc::crc32::checksum_ieee`. It folds the bytes through a fixed
/// table, starting from a fixed value, so its result depends on the bytes
/// only; that result is what [`crc32_ieee`] names. It indexes its table by a
/// byte and so cannot fail.
#[verifier::external_body]
pub(crate) fn checksum_ieee(bytes: &[u8]) -> (r: u32)
    ensures
        r == crc32_ieee(bytes@),
{
    crc::crc32::checksum_ieee(bytes)
}

} // verus!
