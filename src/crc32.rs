//! The CRC-32 checksum that the format stores for names and contents.
use vstd::prelude::*;

verus! {

/// The CRC-32 (IEEE polynomial, as the format uses it) of `b`.
pub uninterp spec fn crc32_of(b: Seq<u8>) -> u32;

/// Relies on `flate2::Crc` (`new`, `update`, `sum`): the CRC-32 of the bytes
/// fed to it, a function of those bytes alone.
#[verifier::external_body]
pub(crate) fn checksum(b: &[u8]) -> (r: u32)
    ensures
        r == crc32_of(b@),
{
    let mut crc = flate2::Crc::new();
    crc.update(b);
    crc.sum()
}

} // verus!
