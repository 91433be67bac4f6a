//! The checksum that guards a log entry.

use vstd::prelude::*;

verus! {

/// The CRC-32 checksum of `bytes`, as `crc32fast` computes it.
pub uninterp spec fn crc32(bytes: Seq<u8>) -> u32;

/// Computes the checksum of `bytes` with `crc32fast::hash`.
///
/// Claimed of it: the checksum depends on the bytes alone.
#[verifier::external_body]
pub(crate) fn checksum(bytes: &[u8]) -> (sum: u32)
    ensures
        sum == crc32(bytes@),
{
    crc32fast::hash(bytes)
}

} // verus!
