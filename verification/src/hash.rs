//! XXH64 hashing of keys and payloads.

use vstd::prelude::*;

verus! {

/// The 64-bit XXH64 hash of `data` under `seed`.
pub uninterp spec fn xxh64_of(data: Seq<u8>, seed: u64) -> u64;

/// Calls `xxhash_rust::xxh64::xxh64`. The hash is a function of the bytes and
/// the seed alone: it is computed from little-endian chunks of the input with
/// wrapping arithmetic, without state and without a machine-dependent step.
#[verifier::external_body]
pub(crate) fn xxh64(data: &[u8], seed: u64) -> (h: u64)
    ensures
        h == xxh64_of(data@, seed),
{
    xxhash_rust::xxh64::xxh64(data, seed)
}

} // verus!
