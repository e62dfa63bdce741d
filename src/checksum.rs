//! CRC-32 framing.
use vstd::prelude::*;

verus! {

/// The standard CRC-32 (the zlib variant) of a byte sequence.
pub uninterp spec fn crc32_of(b: Seq<u8>) -> u32;

/// Relies on crc32fast::hash: the CRC-32 of the bytes from `start` to the end.
#[verifier::external_body]
pub(crate) fn crc32_from(b: &[u8], start: usize) -> (r: u32)
    requires
        start <= b@.len(),
    ensures
        r == crc32_of(b@.subrange(start as int, b@.len() as int)),
{
    crc32fast::hash(&b[start..])
}

} // verus!
