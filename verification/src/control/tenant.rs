//! Multi-tenant namespace isolation.
//!
//! Provides namespace-level key isolation by mixing a tenant_id
//! into the XXH64 hash seed. Different tenants' keys map to
//! different hash table slots with high probability.
//!
//! # Design
//!
//! - **Not** physical MR isolation
//! - Uses xxhash seed mixing: `hash = xxh64(key, tenant_id as u64)`
//! - Same physical CuckooTable, different logical namespaces

use vstd::prelude::*;

use crate::codec;
use crate::engine::layout::HashedKey;
use crate::hash;

verus! {

/// What is mixed into a tenant's seed for the digest.
pub const DIGEST_MASK: u64 = 0xFFFF_FFFF_FFFF;

/// A tenant namespace that provides isolated key hashing.
/// Two tenants with different IDs will hash the same key to different slots.
#[derive(Debug, Clone, Copy, PartialEq, Eq, Hash, Structural)]
pub struct TenantNamespace {
    tenant_id: u64,
}

/// The digest of a key from its two hashes: their bytes, one after the other.
pub open spec fn digest_of(hash: u64, second: u64) -> Seq<u8> {
    codec::le_digits(hash as nat, 8) + codec::le_digits(second as nat, 8)
}

/// A hashed key from its two hashes.
pub fn key_from_hashes(hash: u64, second: u64) -> (k: HashedKey)
    ensures
        k.hash == hash,
        k.digest@ == digest_of(hash, second),
{
    let low: [u8; 8] = codec::encode_u64(hash);
    let high: [u8; 8] = codec::encode_u64(second);
    let mut digest: [u8; 16] = [0u8; 16];
    let mut i: usize = 0;
    while i < 8
        invariant
            i <= 8,
            forall|j: int| 0 <= j < i ==> digest@[j] == low@[j] && digest@[8 + j] == high@[j],
        decreases 8 - i,
    {
        digest[i] = low[i];
        digest[8 + i] = high[i];
        i = i + 1;
    }
    assert(digest@ =~= digest_of(hash, second));
    HashedKey { hash, digest }
}

impl TenantNamespace {
    pub closed spec fn spec_id(&self) -> u64 {
        self.tenant_id
    }

    /// Create a new tenant namespace.
    pub fn new(tenant_id: u64) -> (r: Self)
        ensures
            r.spec_id() == tenant_id,
    {
        TenantNamespace { tenant_id }
    }

    /// Get the tenant ID.
    pub fn id(&self) -> (r: u64)
        ensures
            r == self.spec_id(),
    {
        self.tenant_id
    }

    /// Hash a key with this tenant's namespace.
    /// Uses XXH64 with tenant_id as seed, ensuring different tenants
    /// produce different hashes for the same key.
    pub fn hash_key(&self, key: &[u8]) -> (h: u64)
        ensures
            h == hash::xxh64_of(key@, self.spec_id()),
    {
        hash::xxh64(key, self.tenant_id)
    }

    /// Produce a HashedKey for this tenant's namespace.
    /// Uses XXH64 with tenant_id as seed for the primary hash,
    /// and tenant_id XOR 0xFFFFFFFFFFFF as seed for the digest.
    pub fn hashed_key(&self, key: &[u8]) -> (k: HashedKey)
        ensures
            k.hash == hash::xxh64_of(key@, self.spec_id()),
            k.digest@ == digest_of(
                hash::xxh64_of(key@, self.spec_id()),
                hash::xxh64_of(key@, self.spec_id() ^ DIGEST_MASK),
            ),
    {
        let digest_seed: u64 = self.tenant_id ^ DIGEST_MASK;
        key_from_hashes(hash::xxh64(key, self.tenant_id), hash::xxh64(key, digest_seed))
    }
}

/// The digest of a key determines both hashes.
pub proof fn law_digest_is_injective(a: u64, b: u64, c: u64, d: u64)
    requires
        digest_of(a, b) == digest_of(c, d),
    ensures
        a == c,
        b == d,
{
    reveal_with_fuel(codec::byte_range, 9);
    codec::lemma_decode_encode(a as nat, 8);
    codec::lemma_decode_encode(b as nat, 8);
    codec::lemma_decode_encode(c as nat, 8);
    codec::lemma_decode_encode(d as nat, 8);
    assert(digest_of(a, b).subrange(0, 8) =~= codec::le_digits(a as nat, 8));
    assert(digest_of(c, d).subrange(0, 8) =~= codec::le_digits(c as nat, 8));
    assert(digest_of(a, b).subrange(8, 16) =~= codec::le_digits(b as nat, 8));
    assert(digest_of(c, d).subrange(8, 16) =~= codec::le_digits(d as nat, 8));
}

/// The digest of a key begins with the bytes of its first hash and ends with those
/// of the second, the lowest byte first.
pub proof fn law_digest_layout(hash: u64, second: u64)
    ensures
        digest_of(hash, second).len() == 16,
        ({
            let d = digest_of(hash, second);
            &&& hash == d[0] + 0x100 * d[1] + 0x1_0000 * d[2] + 0x100_0000 * d[3] + 0x1_0000_0000
                * d[4] + 0x100_0000_0000 * d[5] + 0x1_0000_0000_0000 * d[6] + 0x100_0000_0000_0000
                * d[7]
            &&& second == d[8] + 0x100 * d[9] + 0x1_0000 * d[10] + 0x100_0000 * d[11]
                + 0x1_0000_0000 * d[12] + 0x100_0000_0000 * d[13] + 0x1_0000_0000_0000 * d[14]
                + 0x100_0000_0000_0000 * d[15]
        }),
{
    let low = codec::le_digits(hash as nat, 8);
    let high = codec::le_digits(second as nat, 8);
    reveal_with_fuel(codec::byte_range, 9);
    codec::lemma_decode_encode(hash as nat, 8);
    codec::lemma_decode_encode(second as nat, 8);
    codec::lemma_le_value_8(low);
    codec::lemma_le_value_8(high);
    let d = digest_of(hash, second);
    assert(forall|i: int| 0 <= i < 8 ==> d[i] == low[i]);
    assert(forall|i: int| 0 <= i < 8 ==> #[trigger] high[i] == d[8 + i]);
}

/// The two seeds of a tenant agree in the high sixteen bits and differ in each of
/// the others.
pub proof fn law_second_seed(id: u64)
    ensures
        (id ^ DIGEST_MASK) / 0x1_0000_0000_0000 == id / 0x1_0000_0000_0000,
        (id ^ DIGEST_MASK) % 0x1_0000_0000_0000 == 0xFFFF_FFFF_FFFF - id % 0x1_0000_0000_0000,
{
    assert((id ^ 0xFFFF_FFFF_FFFFu64) / 0x1_0000_0000_0000u64 == id / 0x1_0000_0000_0000u64)
        by (bit_vector);
    assert((id ^ 0xFFFF_FFFF_FFFFu64) % 0x1_0000_0000_0000u64 == 0xFFFF_FFFF_FFFFu64 - id
        % 0x1_0000_0000_0000u64) by (bit_vector);
}

} // verus!
