//! Data layout: dual-mode [`HashBucket`] (Inline/Extent), extent headers and
//! key types.
//!
//! # Bit layout of `HashBucket::lock_version` (u64)
//!
//! ```text
//! [63..32] version (32b)
//! [31.. 8] lease_ts (24b)
//! [ 7.. 3] reserved
//! [ 2]     mode  (0=Inline, 1=Extent)
//! [ 1]     tombstone
//! [ 0]     locked
//! ```
//!
//! Legal states:
//!   `0b000` - idle, alive, Inline
//!   `0b001` - locked + Inline
//!   `0b010` - tombstone
//!   `0b100` - idle, alive, Extent
//!   `0b101` - locked + Extent
//!
//! The contracts read the word arithmetically, through [`word_version`],
//! [`word_lease`], [`word_extent`], [`word_tombstone`] and [`word_locked`], and
//! build it with [`lock_word`].

use vstd::prelude::*;

use crate::codec;

verus! {

/// Default lease timeout in milliseconds.
pub const LEASE_TIMEOUT_MS: u32 = 100;

/// Extent-header magic value: ASCII "RDMA".
pub const EXTENT_MAGIC: u32 = 0x5244_4D41;

/// Size of an [`ExtentHeaderV2`] in bytes.
pub const HEADER_SIZE_V2: u64 = 32;

// ---------------------------------------------------------------------------
// The lock word
// ---------------------------------------------------------------------------
/// The version counter of a lock word.
pub open spec fn word_version(w: u64) -> int {
    w as int / 0x1_0000_0000
}

/// The 24-bit lease timestamp of a lock word.
pub open spec fn word_lease(w: u64) -> int {
    (w as int / 0x100) % 0x100_0000
}

/// The mode bit of a lock word: set for Extent storage.
pub open spec fn word_extent(w: u64) -> bool {
    (w as int / 4) % 2 == 1
}

/// The tombstone bit of a lock word.
pub open spec fn word_tombstone(w: u64) -> bool {
    (w as int / 2) % 2 == 1
}

/// The locked bit of a lock word.
pub open spec fn word_locked(w: u64) -> bool {
    w as int % 2 == 1
}

/// The lock word with these fields and the reserved bits clear.
pub open spec fn lock_word(
    version: int,
    lease: int,
    extent: bool,
    tombstone: bool,
    locked: bool,
) -> int {
    version * 0x1_0000_0000 + lease * 0x100 + (if extent { 4int } else { 0 }) + (if tombstone {
        2int
    } else { 0 }) + (if locked { 1int } else { 0 })
}

/// Every field of a word built by [`lock_word`] reads back as it was given.
pub proof fn lemma_lock_word_fields(
    w: u64,
    version: int,
    lease: int,
    extent: bool,
    tombstone: bool,
    locked: bool,
)
    requires
        0 <= version < 0x1_0000_0000,
        0 <= lease < 0x100_0000,
        w == lock_word(version, lease, extent, tombstone, locked),
    ensures
        word_version(w) == version,
        word_lease(w) == lease,
        word_extent(w) == extent,
        word_tombstone(w) == tombstone,
        word_locked(w) == locked,
{
}

proof fn lemma_word_bits(w: u64)
    ensures
        (w & 0x01 != 0) == word_locked(w),
        (w & 0x02 != 0) == word_tombstone(w),
        (w & 0x04 != 0) == word_extent(w),
        (w & 0x04) == (if word_extent(w) { 4u64 } else { 0u64 }),
        w >> 32 == word_version(w),
        (w >> 8) & 0xFF_FFFF == word_lease(w),
        w & 0xFFFF_FFFF_0000_0000 == word_version(w) * 0x1_0000_0000,
{
    assert(w & 0x01 == w % 2) by (bit_vector);
    assert(w & 0x02 == 2 * ((w / 2) % 2)) by (bit_vector);
    assert(w & 0x04 == 4 * ((w / 4) % 2)) by (bit_vector);
    assert(w >> 32 == w / 0x1_0000_0000) by (bit_vector);
    assert((w >> 8) & 0xFF_FFFF == (w / 0x100) % 0x100_0000) by (bit_vector);
    assert(w & 0xFFFF_FFFF_0000_0000 == (w / 0x1_0000_0000) * 0x1_0000_0000) by (bit_vector);
}

/// Assembles a lock word from its fields; the lease is cut to 24 bits.
pub fn make_lock_word(version: u32, lease_ts_ms: u32, mode: BucketMode, tombstone: bool, locked: bool) -> (w: u64)
    ensures
        w == lock_word(
            version as int,
            lease_ts_ms as int % 0x100_0000,
            mode == BucketMode::Extent,
            tombstone,
            locked,
        ),
{
    let v: u64 = version as u64;
    let l: u64 = lease_ts_ms as u64;
    let m: u64 = match mode {
        BucketMode::Inline => 0,
        BucketMode::Extent => 4,
    };
    let t: u64 = if tombstone {
        2
    } else {
        0
    };
    let k: u64 = if locked {
        1
    } else {
        0
    };
    let w: u64 = (v << 32) | ((l & 0xFF_FFFF) << 8) | m | t | k;
    assert(w == v * 0x1_0000_0000 + (l % 0x100_0000) * 0x100 + m + t + k) by (bit_vector)
        requires
            w == (v << 32) | ((l & 0xFF_FFFF) << 8) | m | t | k,
            v < 0x1_0000_0000,
            m == 0 || m == 4,
            t == 0 || t == 2,
            k == 0 || k == 1,
    ;
    w
}

/// The version counter of a lock word.
pub fn lock_word_version(w: u64) -> (v: u32)
    ensures
        v == word_version(w),
{
    proof {
        lemma_word_bits(w);
    }
    (w >> 32) as u32
}

/// The 24-bit lease timestamp of a lock word.
pub fn lock_word_lease(w: u64) -> (l: u32)
    ensures
        l == word_lease(w),
{
    proof {
        lemma_word_bits(w);
    }
    ((w >> 8) & 0xFF_FFFF) as u32
}

/// Whether the locked bit of a lock word is set.
pub fn lock_word_locked(w: u64) -> (b: bool)
    ensures
        b == word_locked(w),
{
    proof {
        lemma_word_bits(w);
    }
    (w & 0x01) != 0
}

/// Whether the tombstone bit of a lock word is set.
pub fn lock_word_tombstone(w: u64) -> (b: bool)
    ensures
        b == word_tombstone(w),
{
    proof {
        lemma_word_bits(w);
    }
    (w & 0x02) != 0
}

/// The storage mode that a lock word records.
pub fn lock_word_mode(w: u64) -> (m: BucketMode)
    ensures
        (m == BucketMode::Extent) == word_extent(w),
{
    proof {
        lemma_word_bits(w);
    }
    if (w & 0x04) != 0 {
        BucketMode::Extent
    } else {
        BucketMode::Inline
    }
}

// ---------------------------------------------------------------------------
// BucketMode, HashedKey
// ---------------------------------------------------------------------------
/// Dual-mode storage selector: Inline stores the value inside the bucket;
/// Extent stores an (offset, length) pointer into the extent region.
#[derive(Debug, Clone, Copy, PartialEq, Eq, Structural)]
pub enum BucketMode {
    Inline,
    Extent,
}

/// A 64-bit XXH64 hash together with a 16-byte digest for collision
/// verification.
#[derive(Debug)]
pub struct HashedKey {
    pub hash: u64,
    pub digest: [u8; 16],
}

impl Clone for HashedKey {
    fn clone(&self) -> (r: Self)
        ensures
            r == *self,
    {
        HashedKey { hash: self.hash, digest: self.digest }
    }
}

/// Whether two digests hold the same bytes.
pub fn same_digest(a: &[u8; 16], b: &[u8; 16]) -> (r: bool)
    ensures
        r == (a@ == b@),
{
    let mut i: usize = 0;
    while i < 16
        invariant
            i <= 16,
            forall|j: int| 0 <= j < i ==> a@[j] == b@[j],
        decreases 16 - i,
    {
        if a[i] != b[i] {
            return false;
        }
        i = i + 1;
    }
    assert(a@ =~= b@);
    true
}

// ---------------------------------------------------------------------------
// HashBucket
// ---------------------------------------------------------------------------
/// The fundamental record of the Cuckoo hash table.
///
/// # Encoded layout (64 bytes)
///
/// | Offset | Field           | Size |
/// |--------|-----------------|------|
/// | 0      | `lock_version`  | 8    |
/// | 8      | `key_hash`      | 8    |
/// | 16     | `key_or_digest` | 16   |
/// | 32     | `body`          | 32   |
///
/// # Dual-mode body
///
/// - **Inline**: `body[0..32]` = raw value (max 32 bytes).
/// - **Extent**: `body[0.. 8]` = offset (u64 le), `body[8..16]` = length (u64 le),
///   `body[16..32]` = reserved.
#[derive(Debug, Clone, Copy)]
pub struct HashBucket {
    /// Combined lock-word: version, lease timestamp, mode, tombstone, locked.
    pub lock_version: u64,
    /// 64-bit XXH64 hash of the key.  `0` means "empty" when the tombstone
    /// bit is not set.
    pub key_hash: u64,
    /// Inline: raw key (at most 16 bytes, zero-padded).  Extent: 16-byte digest.
    pub key_or_digest: [u8; 16],
    /// Value storage.  Interpretation depends on the mode bit.
    pub body: [u8; 32],
}

/// What a bucket holds.
#[verifier::ext_equal]
pub struct Slot {
    pub lock: u64,
    pub hash: u64,
    pub digest: Seq<u8>,
    pub body: Seq<u8>,
}

impl View for HashBucket {
    type V = Slot;

    open spec fn view(&self) -> Slot {
        Slot {
            lock: self.lock_version,
            hash: self.key_hash,
            digest: self.key_or_digest@,
            body: self.body@,
        }
    }
}

/// What the buckets of a table hold.
pub open spec fn slots(buckets: Seq<HashBucket>) -> Seq<Slot> {
    Seq::new(buckets.len(), |i: int| buckets[i]@)
}

/// The slot of a bucket whose 64 bytes are all zero: unlocked, holding no key.
pub open spec fn zero_slot() -> Slot {
    Slot {
        lock: 0,
        hash: 0,
        digest: Seq::new(16, |i: int| 0u8),
        body: Seq::new(32, |i: int| 0u8),
    }
}

/// The slot can take a new key: it never held one, or its key was deleted.
pub open spec fn vacant(s: Slot) -> bool {
    s.hash == 0 || word_tombstone(s.lock)
}

/// The slot holds the key with this hash and digest, and the key was not
/// deleted.
pub open spec fn holds(s: Slot, hash: u64, digest: Seq<u8>) -> bool {
    s.hash == hash && s.digest == digest && !word_tombstone(s.lock)
}

/// A slot that was just written: unlocked, version zero, no lease.
pub open spec fn fresh_slot(hash: u64, digest: Seq<u8>, body: Seq<u8>, extent: bool) -> Slot {
    Slot {
        lock: if extent {
            4
        } else {
            0
        },
        hash,
        digest,
        body,
    }
}

/// The lock word of a slot that was just written records the mode and nothing
/// else.
pub proof fn lemma_fresh_lock()
    ensures
        word_extent(4),
        !word_extent(0),
        !word_tombstone(4),
        !word_tombstone(0),
        !word_locked(4),
        !word_locked(0),
{
}

/// The 64 bytes that a bucket occupies in a table region.
pub open spec fn bucket_bytes(s: Slot) -> Seq<u8> {
    codec::le_digits(s.lock as nat, 8) + codec::le_digits(s.hash as nat, 8) + s.digest + s.body
}

/// An extent reference consists of two `u64` numbers.
pub proof fn lemma_extent_ref_bound(body: Seq<u8>)
    requires
        body.len() == 32,
    ensures
        body_extent_ref(body).0 <= u64::MAX,
        body_extent_ref(body).1 <= u64::MAX,
{
    reveal_with_fuel(codec::byte_range, 9);
    codec::lemma_le_value_bound(body.subrange(0, 8));
    codec::lemma_le_value_bound(body.subrange(8, 16));
}

/// The slot that 64 bytes of a table region hold.
pub open spec fn slot_of(bytes: Seq<u8>) -> Slot {
    Slot {
        lock: codec::le_u64_at(bytes, 0) as u64,
        hash: codec::le_u64_at(bytes, 8) as u64,
        digest: bytes.subrange(16, 32),
        body: bytes.subrange(32, 64),
    }
}

/// A slot has the sizes of a bucket: 16 bytes of digest and 32 of body.
pub open spec fn bucket_sized(s: Slot) -> bool {
    s.digest.len() == 16 && s.body.len() == 32
}

/// A slot that is written to a table region is read back as it was.
pub proof fn law_slot_reads_back(s: Slot)
    requires
        bucket_sized(s),
    ensures
        bucket_bytes(s).len() == 64,
        slot_of(bucket_bytes(s)) == s,
        codec::le_u64_at(bucket_bytes(s), 0) == s.lock,
{
    let bytes = bucket_bytes(s);
    reveal_with_fuel(codec::byte_range, 9);
    codec::lemma_decode_encode(s.lock as nat, 8);
    codec::lemma_decode_encode(s.hash as nat, 8);
    assert(bytes.subrange(0, 8) =~= codec::le_digits(s.lock as nat, 8));
    assert(bytes.subrange(8, 16) =~= codec::le_digits(s.hash as nat, 8));
    assert(bytes.subrange(16, 32) =~= s.digest);
    assert(bytes.subrange(32, 64) =~= s.body);
}

/// The extent reference that the first sixteen bytes of a body hold.
pub open spec fn body_extent_ref(body: Seq<u8>) -> (nat, nat) {
    (codec::le_u64_at(body, 0), codec::le_u64_at(body, 8))
}

impl HashBucket {
    /// An idle, alive, Inline bucket that holds no key.
    pub fn zeroed() -> (b: HashBucket)
        ensures
            b@ == zero_slot(),
    {
        let b = HashBucket {
            lock_version: 0,
            key_hash: 0,
            key_or_digest: [0u8; 16],
            body: [0u8; 32],
        };
        assert(b.key_or_digest@ =~= Seq::new(16, |i: int| 0u8));
        assert(b.body@ =~= Seq::new(32, |i: int| 0u8));
        b
    }

    /// Returns `true` when bit-0 (locked) is set.
    pub fn is_locked(&self) -> (b: bool)
        ensures
            b == word_locked(self.lock_version),
    {
        lock_word_locked(self.lock_version)
    }

    /// Returns `true` when bit-1 (tombstone) is set.
    pub fn is_tombstone(&self) -> (b: bool)
        ensures
            b == word_tombstone(self.lock_version),
    {
        lock_word_tombstone(self.lock_version)
    }

    /// Returns `true` when bit-2 (mode) is **0**: Inline storage.
    pub fn is_inline(&self) -> (b: bool)
        ensures
            b == !word_extent(self.lock_version),
    {
        lock_word_mode(self.lock_version) == BucketMode::Inline
    }

    /// Returns `true` when bit-2 (mode) is **1**: Extent storage.
    pub fn is_extent(&self) -> (b: bool)
        ensures
            b == word_extent(self.lock_version),
    {
        lock_word_mode(self.lock_version) == BucketMode::Extent
    }

    /// Reads the 32-bit version counter from bits `[63..32]`.
    pub fn version(&self) -> (v: u32)
        ensures
            v == word_version(self.lock_version),
    {
        lock_word_version(self.lock_version)
    }

    /// Reads the 24-bit lease timestamp from bits `[31..8]`.
    pub fn lease_ts(&self) -> (l: u32)
        ensures
            l == word_lease(self.lock_version),
    {
        lock_word_lease(self.lock_version)
    }

    /// Construct the `lock_version` word for a newly-locked bucket.
    ///
    /// Preserves the current `version`, sets the lease timestamp, mode bit,
    /// and the locked flag.  Tombstone is cleared.
    pub fn set_locked(&mut self, lease_ts_ms: u32, mode: BucketMode)
        ensures
            final(self).lock_version == lock_word(
                word_version(old(self).lock_version),
                lease_ts_ms as int % 0x100_0000,
                mode == BucketMode::Extent,
                false,
                true,
            ),
            final(self).key_hash == old(self).key_hash,
            final(self).key_or_digest == old(self).key_or_digest,
            final(self).body == old(self).body,
    {
        let version: u32 = self.version();
        self.lock_version = make_lock_word(version, lease_ts_ms, mode, false, true);
    }

    /// Unlock the bucket: write a new version counter, preserve the mode
    /// bit, and clear locked / tombstone / lease timestamp.
    pub fn unlock_bucket(&mut self, new_version: u32)
        ensures
            final(self).lock_version == lock_word(
                new_version as int,
                0,
                word_extent(old(self).lock_version),
                false,
                false,
            ),
            final(self).key_hash == old(self).key_hash,
            final(self).key_or_digest == old(self).key_or_digest,
            final(self).body == old(self).body,
    {
        let mode = lock_word_mode(self.lock_version);
        self.lock_version = make_lock_word(new_version, 0, mode, false, false);
    }

    /// Mark the bucket as a tombstone: set bit-1, clear locked (bit-0) and
    /// the lease timestamp.  Version and mode are preserved.
    pub fn mark_tombstone(&mut self)
        ensures
            final(self).lock_version == lock_word(
                word_version(old(self).lock_version),
                0,
                word_extent(old(self).lock_version),
                true,
                false,
            ),
            final(self).key_hash == old(self).key_hash,
            final(self).key_or_digest == old(self).key_or_digest,
            final(self).body == old(self).body,
    {
        let mode = lock_word_mode(self.lock_version);
        let version: u32 = self.version();
        self.lock_version = make_lock_word(version, 0, mode, true, false);
    }

    /// Returns `true` when the bucket is locked **and** the lease has expired.
    ///
    /// `now_ms` and `timeout_ms` are both in the same unit (typically
    /// milliseconds).  The age of the lease is taken modulo `2^32`.
    pub fn is_expired(&self, now_ms: u32, timeout_ms: u32) -> (b: bool)
        ensures
            b == (word_locked(self.lock_version) && (now_ms - word_lease(self.lock_version))
                % 0x1_0000_0000 >= timeout_ms),
    {
        self.is_locked() && now_ms.wrapping_sub(self.lease_ts()) >= timeout_ms
    }

    /// Return a reference to the 32-byte inline value.
    pub fn inline_value(&self) -> (v: &[u8; 32])
        ensures
            *v == self.body,
    {
        &self.body
    }

    /// Copy a 32-byte value into the inline storage.
    pub fn set_inline_value(&mut self, value: &[u8; 32])
        ensures
            final(self).body == *value,
            final(self).lock_version == old(self).lock_version,
            final(self).key_hash == old(self).key_hash,
            final(self).key_or_digest == old(self).key_or_digest,
    {
        self.body = *value;
    }

    /// Write an extent pointer into `body[0..16]`.
    ///
    /// `body[0..8]` = `offset` (little-endian u64)
    /// `body[8..16]` = `length` (little-endian u64)
    pub fn set_extent_ref(&mut self, offset: u64, length: u64)
        ensures
            final(self).body@ == codec::le_digits(offset as nat, 8) + codec::le_digits(length as nat, 8) + old(
                self,
            ).body@.subrange(16, 32),
            body_extent_ref(final(self).body@) == (offset as nat, length as nat),
            final(self).lock_version == old(self).lock_version,
            final(self).key_hash == old(self).key_hash,
            final(self).key_or_digest == old(self).key_or_digest,
    {
        let off: [u8; 8] = codec::encode_u64(offset);
        let len: [u8; 8] = codec::encode_u64(length);
        let mut body: [u8; 32] = self.body;
        let mut i: usize = 0;
        while i < 8
            invariant
                i <= 8,
                forall|j: int| 0 <= j < i ==> body@[j] == off@[j],
                forall|j: int| 0 <= j < i ==> body@[8 + j] == len@[j],
                forall|j: int| 16 <= j < 32 ==> body@[j] == self.body@[j],
            decreases 8 - i,
        {
            body[i] = off[i];
            body[8 + i] = len[i];
            i = i + 1;
        }
        self.body = body;
        assert(self.body@ =~= codec::le_digits(offset as nat, 8) + codec::le_digits(length as nat, 8) + old(
            self,
        ).body@.subrange(16, 32));
        assert(self.body@.subrange(0, 8) =~= off@);
        assert(self.body@.subrange(8, 16) =~= len@);
    }

    /// Read the extent pointer from `body[0..16]`.
    ///
    /// Returns `(offset, length)`.
    pub fn extent_ref(&self) -> (r: (u64, u64))
        ensures
            (r.0 as nat, r.1 as nat) == body_extent_ref(self.body@),
    {
        let offset: u64 = codec::read_u64(&self.body, 0);
        let length: u64 = codec::read_u64(&self.body, 8);
        (offset, length)
    }

    /// A bucket is considered "empty" when its `key_hash` is zero **and** it
    /// is not a tombstone.  (A locked bucket with `key_hash == 0` is still
    /// empty: insertion is in flight.)
    pub fn is_empty(&self) -> (b: bool)
        ensures
            b == (self.key_hash == 0 && !word_tombstone(self.lock_version)),
    {
        self.key_hash == 0 && !self.is_tombstone()
    }

    /// Exact-match check: the stored hash **and** digest must both match.
    pub fn matches_key(&self, hash: u64, digest: &[u8; 16]) -> (b: bool)
        ensures
            b == (self.key_hash == hash && self.key_or_digest@ == digest@),
    {
        self.key_hash == hash && same_digest(&self.key_or_digest, digest)
    }

    /// The 64 bytes that this bucket occupies in a table region.
    pub fn to_bytes(&self) -> (r: Vec<u8>)
        ensures
            r@ == bucket_bytes(self@),
            r@.len() == 64,
    {
        let lock: [u8; 8] = codec::encode_u64(self.lock_version);
        let hash: [u8; 8] = codec::encode_u64(self.key_hash);
        let mut r: Vec<u8> = Vec::new();
        r.extend_from_slice(&lock);
        r.extend_from_slice(&hash);
        r.extend_from_slice(&self.key_or_digest);
        r.extend_from_slice(&self.body);
        assert(r@ =~= bucket_bytes(self@));
        r
    }

    /// The bucket whose 64 bytes are `s`.
    pub fn from_bytes(s: &[u8]) -> (b: HashBucket)
        requires
            s@.len() == 64,
        ensures
            b@ == slot_of(s@),
            bucket_bytes(b@) == s@,
    {
        let lock_version: u64 = codec::read_u64(s, 0);
        let key_hash: u64 = codec::read_u64(s, 8);
        let mut key_or_digest: [u8; 16] = [0u8; 16];
        let mut i: usize = 0;
        while i < 16
            invariant
                i <= 16,
                s@.len() == 64,
                forall|j: int| 0 <= j < i ==> key_or_digest@[j] == s@[16 + j],
            decreases 16 - i,
        {
            key_or_digest[i] = s[16 + i];
            i = i + 1;
        }
        let mut body: [u8; 32] = [0u8; 32];
        let mut k: usize = 0;
        while k < 32
            invariant
                k <= 32,
                s@.len() == 64,
                forall|j: int| 0 <= j < k ==> body@[j] == s@[32 + j],
            decreases 32 - k,
        {
            body[k] = s[32 + k];
            k = k + 1;
        }
        let b = HashBucket { lock_version, key_hash, key_or_digest, body };
        proof {
            codec::lemma_encode_decode(s@.subrange(0, 8));
            codec::lemma_encode_decode(s@.subrange(8, 16));
            assert(b.key_or_digest@ =~= s@.subrange(16, 32));
            assert(b.body@ =~= s@.subrange(32, 64));
            assert(bucket_bytes(b@) =~= s@);
        }
        b
    }
}

// ---------------------------------------------------------------------------
// ExtentHeader: large-object metadata (24 bytes)
// ---------------------------------------------------------------------------
/// Header placed at the start of every V1 extent in the large-object region.
///
/// # Layout (24 bytes)
///
/// | Offset | Field        | Size |
/// |--------|--------------|------|
/// | 0      | `length`     | 8    |
/// | 8      | `epoch_mark` | 8    |
/// | 16     | `magic`      | 4    |
/// | 20     | `_pad`       | 4    |
#[derive(Clone, Copy)]
pub struct ExtentHeader {
    /// Payload length in bytes (not including this header).
    pub length: u64,
    /// Global-GC death timestamp (epoch).  Stale extents whose epoch has
    /// passed are eligible for collection.
    pub epoch_mark: u64,
    /// Magic constant: [`EXTENT_MAGIC`].
    pub magic: u32,
    /// Explicit padding to reach 24 bytes.
    pub _pad: u32,
}

/// The 24 bytes of a V1 extent header.
pub open spec fn header_v1_bytes(h: ExtentHeader) -> Seq<u8> {
    codec::le_digits(h.length as nat, 8) + codec::le_digits(h.epoch_mark as nat, 8)
        + codec::le_digits(h.magic as nat, 4) + codec::le_digits(h._pad as nat, 4)
}

impl ExtentHeader {
    /// The 24 bytes of this header.
    pub fn to_bytes(&self) -> (r: Vec<u8>)
        ensures
            r@ == header_v1_bytes(*self),
            r@.len() == 24,
    {
        let length: [u8; 8] = codec::encode_u64(self.length);
        let epoch: [u8; 8] = codec::encode_u64(self.epoch_mark);
        let magic: [u8; 4] = codec::encode_u32(self.magic);
        let pad: [u8; 4] = codec::encode_u32(self._pad);
        let mut r: Vec<u8> = Vec::new();
        r.extend_from_slice(&length);
        r.extend_from_slice(&epoch);
        r.extend_from_slice(&magic);
        r.extend_from_slice(&pad);
        assert(r@ =~= header_v1_bytes(*self));
        r
    }
}

// ---------------------------------------------------------------------------
// ExtentHeaderV2: large-object metadata (32 bytes)
// ---------------------------------------------------------------------------
/// Header placed at the start of every allocated extent in the large-object
/// region (V2 format, 32 bytes).
///
/// # Layout (32 bytes)
///
/// | Offset | Field        | Size |
/// |--------|--------------|------|
/// | 0      | `magic`      | 4    |
/// | 4      | `version`    | 1    |
/// | 5      | `_pad1`      | 3    |
/// | 8      | `data_len`   | 4    |
/// | 12     | `_pad2`      | 4    |
/// | 16     | `epoch_mark` | 8    |
/// | 24     | `checksum`   | 8    |
///
/// `checksum` is an XXH64 of the payload. A value of 0 means the write is
/// still in progress. Readers must verify checksum before trusting the data.
#[derive(Clone, Copy)]
pub struct ExtentHeaderV2 {
    /// Magic constant: [`EXTENT_MAGIC`].
    pub magic: u32,
    /// Header format version: 1 = ExtentHeaderV2.
    /// 0 is reserved for V1 (24-byte ExtentHeader).
    pub version: u8,
    /// Padding: align `data_len` to a 4-byte boundary.
    pub _pad1: [u8; 3],
    /// Payload length in bytes (not including this header). u32 supports up to
    /// 4 GiB per extent.
    pub data_len: u32,
    /// Padding: align `epoch_mark` to an 8-byte boundary.
    pub _pad2: [u8; 4],
    /// Global-GC death timestamp (epoch). Stale extents whose epoch has
    /// passed are eligible for collection.
    pub epoch_mark: u64,
    /// XXH64 checksum of the payload data. 0 = write in progress.
    pub checksum: u64,
}

/// The 32 bytes of a V2 extent header.
pub open spec fn header_v2_bytes(h: ExtentHeaderV2) -> Seq<u8> {
    codec::le_digits(h.magic as nat, 4) + seq![h.version] + h._pad1@ + codec::le_digits(
        h.data_len as nat,
        4,
    ) + h._pad2@ + codec::le_digits(h.epoch_mark as nat, 8) + codec::le_digits(
        h.checksum as nat,
        8,
    )
}

impl ExtentHeaderV2 {
    /// A header of a live, unmarked extent.
    pub fn live(data_len: u32, checksum: u64) -> (h: ExtentHeaderV2)
        ensures
            h.magic == EXTENT_MAGIC,
            h.version == 1,
            h._pad1@ == Seq::new(3, |i: int| 0u8),
            h.data_len == data_len,
            h._pad2@ == Seq::new(4, |i: int| 0u8),
            h.epoch_mark == 0,
            h.checksum == checksum,
    {
        let h = ExtentHeaderV2 {
            magic: EXTENT_MAGIC,
            version: 1,
            _pad1: [0u8; 3],
            data_len,
            _pad2: [0u8; 4],
            epoch_mark: 0,
            checksum,
        };
        assert(h._pad1@ =~= Seq::new(3, |i: int| 0u8));
        assert(h._pad2@ =~= Seq::new(4, |i: int| 0u8));
        h
    }

    /// The 32 bytes of this header.
    pub fn to_bytes(&self) -> (r: Vec<u8>)
        ensures
            r@ == header_v2_bytes(*self),
            r@.len() == 32,
    {
        let magic: [u8; 4] = codec::encode_u32(self.magic);
        let data_len: [u8; 4] = codec::encode_u32(self.data_len);
        let epoch: [u8; 8] = codec::encode_u64(self.epoch_mark);
        let checksum: [u8; 8] = codec::encode_u64(self.checksum);
        let mut r: Vec<u8> = Vec::new();
        r.extend_from_slice(&magic);
        r.push(self.version);
        r.extend_from_slice(&self._pad1);
        r.extend_from_slice(&data_len);
        r.extend_from_slice(&self._pad2);
        r.extend_from_slice(&epoch);
        r.extend_from_slice(&checksum);
        assert(r@ =~= header_v2_bytes(*self));
        r
    }

    /// Compute the total extent footprint (header + data, 8-byte aligned).
    pub fn header_total(data_len: u64) -> (total: u64)
        requires
            data_len + 39 <= u64::MAX,
        ensures
            total == crate::engine::extent::extent_footprint(data_len as int),
    {
        crate::engine::extent::align_up(HEADER_SIZE_V2 + data_len, 8)
    }
}

/// Check whether a byte slice starts with a valid V2 header (magic + version == 1).
pub fn is_v2(header_bytes: &[u8]) -> (b: bool)
    ensures
        b == (header_bytes@.len() >= 5 && codec::le_u32_at(header_bytes@, 0) == EXTENT_MAGIC
            && header_bytes@[4] == 1),
{
    if header_bytes.len() < 5 {
        return false;
    }
    let magic: u32 = codec::read_u32(header_bytes, 0);
    magic == EXTENT_MAGIC && header_bytes[4] == 1
}

/// Return the header size in bytes for a given extent header version.
///
/// - Version 0 (V1 / original [`ExtentHeader`]): 24 bytes
/// - Version 1 (V2 / [`ExtentHeaderV2`]): 32 bytes
/// - Unknown version: defaults to 32 bytes (conservative V2 fallback)
pub fn header_size_for_version(version: u8) -> (size: u64)
    ensures
        size == (if version == 0 {
            24int
        } else {
            32
        }),
{
    match version {
        0 => 24,
        _ => 32,
    }
}

// ---------------------------------------------------------------------------
// FreeListHeader: bump-allocator metadata for the Free List region (64 bytes)
// ---------------------------------------------------------------------------
/// Header at the start of the Free List region.
/// Clients CAS on `bump_offset` to atomically reserve extent space.
#[derive(Clone, Copy)]
pub struct FreeListHeader {
    /// Monotonic bump allocator offset.
    /// Initialized to 0; advanced by the extent footprint on each allocation.
    pub bump_offset: u64,
    /// Padding to fill a full cache line (64 bytes total).
    pub _pad: [u8; 56],
}

impl FreeListHeader {
    /// The header of a region in which nothing has been reserved.
    pub fn zeroed() -> (h: FreeListHeader)
        ensures
            h.bump_offset == 0,
            h._pad@ == Seq::new(56, |i: int| 0u8),
    {
        let h = FreeListHeader { bump_offset: 0, _pad: [0u8; 56] };
        assert(h._pad@ =~= Seq::new(56, |i: int| 0u8));
        h
    }
}

// ---------------------------------------------------------------------------
// Laws
// ---------------------------------------------------------------------------
/// A lock word keeps the version in its high half, the lease above the lowest byte,
/// and the mode, the tombstone and the lock in its three lowest bits.
pub proof fn law_lock_word_bits(w: u64)
    ensures
        word_version(w) == w >> 32,
        word_lease(w) == (w >> 8) & 0xFF_FFFF,
        word_extent(w) <==> w & 4 != 0,
        word_tombstone(w) <==> w & 2 != 0,
        word_locked(w) <==> w & 1 != 0,
{
    lemma_word_bits(w);
}

/// The fields of a bucket stand at their places: the lock word first, then the hash,
/// the digest and the body.
pub proof fn law_bucket_layout(s: Slot)
    requires
        bucket_sized(s),
    ensures
        bucket_bytes(s).len() == 64,
        codec::le_u64_at(bucket_bytes(s), 0) == s.lock,
        codec::le_u64_at(bucket_bytes(s), 8) == s.hash,
        bucket_bytes(s).subrange(16, 32) == s.digest,
        bucket_bytes(s).subrange(32, 64) == s.body,
{
    let bytes = bucket_bytes(s);
    reveal_with_fuel(codec::byte_range, 9);
    codec::lemma_decode_encode(s.lock as nat, 8);
    codec::lemma_decode_encode(s.hash as nat, 8);
    assert(bytes.subrange(0, 8) =~= codec::le_digits(s.lock as nat, 8));
    assert(bytes.subrange(8, 16) =~= codec::le_digits(s.hash as nat, 8));
    assert(bytes.subrange(16, 32) =~= s.digest);
    assert(bytes.subrange(32, 64) =~= s.body);
}

/// The fields of a V1 header stand at their places.
pub proof fn law_header_v1_layout(h: ExtentHeader)
    ensures
        header_v1_bytes(h).len() == 24,
        codec::le_u64_at(header_v1_bytes(h), 0) == h.length,
        codec::le_u64_at(header_v1_bytes(h), 8) == h.epoch_mark,
        codec::le_u32_at(header_v1_bytes(h), 16) == h.magic,
        codec::le_u32_at(header_v1_bytes(h), 20) == h._pad,
{
    let bytes = header_v1_bytes(h);
    reveal_with_fuel(codec::byte_range, 9);
    codec::lemma_decode_encode(h.length as nat, 8);
    codec::lemma_decode_encode(h.epoch_mark as nat, 8);
    codec::lemma_decode_encode(h.magic as nat, 4);
    codec::lemma_decode_encode(h._pad as nat, 4);
    assert(bytes.subrange(0, 8) =~= codec::le_digits(h.length as nat, 8));
    assert(bytes.subrange(8, 16) =~= codec::le_digits(h.epoch_mark as nat, 8));
    assert(bytes.subrange(16, 20) =~= codec::le_digits(h.magic as nat, 4));
    assert(bytes.subrange(20, 24) =~= codec::le_digits(h._pad as nat, 4));
}

/// The fields of a V2 header stand at their places.
pub proof fn law_header_v2_layout(h: ExtentHeaderV2)
    ensures
        header_v2_bytes(h).len() == 32,
        codec::le_u32_at(header_v2_bytes(h), 0) == h.magic,
        header_v2_bytes(h)[4] == h.version,
        header_v2_bytes(h).subrange(5, 8) == h._pad1@,
        codec::le_u32_at(header_v2_bytes(h), 8) == h.data_len,
        header_v2_bytes(h).subrange(12, 16) == h._pad2@,
        codec::le_u64_at(header_v2_bytes(h), 16) == h.epoch_mark,
        codec::le_u64_at(header_v2_bytes(h), 24) == h.checksum,
{
    let bytes = header_v2_bytes(h);
    reveal_with_fuel(codec::byte_range, 9);
    codec::lemma_decode_encode(h.magic as nat, 4);
    codec::lemma_decode_encode(h.data_len as nat, 4);
    codec::lemma_decode_encode(h.epoch_mark as nat, 8);
    codec::lemma_decode_encode(h.checksum as nat, 8);
    assert(bytes.subrange(0, 4) =~= codec::le_digits(h.magic as nat, 4));
    assert(bytes.subrange(5, 8) =~= h._pad1@);
    assert(bytes.subrange(8, 12) =~= codec::le_digits(h.data_len as nat, 4));
    assert(bytes.subrange(12, 16) =~= h._pad2@);
    assert(bytes.subrange(16, 24) =~= codec::le_digits(h.epoch_mark as nat, 8));
    assert(bytes.subrange(24, 32) =~= codec::le_digits(h.checksum as nat, 8));
}

/// The magic number of an extent is "RDMA" in ASCII, the highest byte first.
pub proof fn law_magic_spells_the_name()
    ensures
        EXTENT_MAGIC == 0x100_0000 * ('R' as int) + 0x1_0000 * ('D' as int) + 0x100 * ('M' as int)
            + 'A' as int,
{
}

/// A slot that was just written holds its key, with its value, in its mode; it is
/// neither vacant nor locked, unless the hash of the key is zero.
pub proof fn law_fresh_slot(hash: u64, digest: Seq<u8>, body: Seq<u8>, extent: bool)
    ensures
        ({
            let s = fresh_slot(hash, digest, body, extent);
            &&& holds(s, hash, digest)
            &&& s.body == body
            &&& word_extent(s.lock) == extent
            &&& word_version(s.lock) == 0
            &&& word_lease(s.lock) == 0
            &&& !word_locked(s.lock)
            &&& vacant(s) <==> hash == 0
        }),
{
}

/// A slot holds a key when hash and digest are the key's, and only until it is
/// deleted; a deleted slot, and one that never held a key, is vacant.
pub proof fn law_slot_states(s: Slot, hash: u64, digest: Seq<u8>)
    ensures
        holds(s, hash, digest) ==> s.hash == hash && s.digest == digest,
        holds(s, s.hash, s.digest) <==> s.lock & 2 == 0,
        vacant(s) <==> s.hash == 0 || s.lock & 2 != 0,
        vacant(zero_slot()),
        zero_slot().lock == 0 && zero_slot().hash == 0,
{
    lemma_word_bits(s.lock);
}

} // verus!
