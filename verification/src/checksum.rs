//! CRC-32 checksums of blocks and of whole files.
//!
//! The checksum is CRC-32/ISO-HDLC as the `crc-fast` crate computes it.

use vstd::prelude::*;
use crate::error::Error;

verus! {

/// The CRC-32/ISO-HDLC checksum of `data`.
pub uninterp spec fn crc32_of(data: Seq<u8>) -> u32;

/// Calls `crc_fast::checksum` with the algorithm `Crc32IsoHdlc`.
///
/// Trusted: the checksum is a function of the bytes alone. The crate returns
/// it in 64 bits of which the upper 32 are zero for this algorithm.
#[verifier::external_body]
pub(crate) fn crc32(data: &[u8]) -> (sum: u32)
    ensures
        sum == crc32_of(data@),
{
    crc_fast::checksum(crc_fast::CrcAlgorithm::Crc32IsoHdlc, data) as u32
}

/// Whether a checksum that was computed agrees with the one on record.
pub fn checksum_matches(recorded: u32, computed: u32) -> (same: bool)
    ensures
        same == (recorded == computed),
{
    recorded == computed
}

/// Holds `data` to the checksum on its record.
pub fn verify_checksum(data: &[u8], recorded: u32) -> (result: Result<(), Error>)
    ensures
        result == if crc32_of(data@) == recorded {
            Ok::<(), Error>(())
        } else {
            Err::<(), Error>(
                Error::ChecksumMismatch { expected: recorded, actual: crc32_of(data@) },
            )
        },
{
    let computed = crc32(data);
    if checksum_matches(recorded, computed) {
        Ok(())
    } else {
        Err(Error::ChecksumMismatch { expected: recorded, actual: computed })
    }
}

} // verus!
