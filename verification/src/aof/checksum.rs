//! The checksum of the append-only log.

use vstd::prelude::*;

verus! {

/// The 64-bit xxHash of `data` with the seed `seed`.
pub uninterp spec fn xxh64_digest(data: Seq<u8>, seed: u64) -> u64;

/// `xxhash_rust::xxh64::xxh64`: the 64-bit xxHash of `data` with the seed
/// `seed`. The hash is a function of the bytes and the seed alone; it is
/// named, not spelled out.
#[verifier::external_body]
pub(crate) fn xxh64(data: &[u8], seed: u64) -> (r: u64)
    ensures
        r == xxh64_digest(data@, seed),
{
    xxhash_rust::xxh64::xxh64(data, seed)
}

} // verus!
