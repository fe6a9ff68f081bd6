//! Cuckoo hashing: two-choice insertion with kick-chain eviction.
//!
//! # Hash functions
//!
//! - `h1 = key_hash % BUCKET_COUNT`
//! - `h2 = ((key_hash >> 32) % BUCKET_COUNT) | 1` (always odd, never equals h1
//!   when h1 is even)
//!
//! # Insert algorithm (kick chain)
//!
//! 1. Compute h1, h2 for the key.
//! 2. Try h1: empty or tombstone: write, done.
//! 3. Try h2: same.
//! 4. If both occupied: kick from h1:
//!    - Save occupant, write new key to current bucket.
//!    - Compute occupant's alternate bucket.
//!    - If alternate empty: write occupant, done.
//!    - Else: repeat with the alternate's occupant.
//! 5. MAX_KICK reached: return `TableFull` (no partial writes: every bucket that
//!    the chain wrote is put back).
//!
//! What the table means as a map from keys to values, and how the operations
//! change that map, is stated in [`crate::engine::cuckoo_laws`].

use vstd::prelude::*;

use crate::codec;
use crate::engine::layout;
use crate::engine::layout::{BucketMode, HashBucket, HashedKey, Slot};

verus! {

/// Default maximum kick chain length before declaring the table full.
pub const DEFAULT_MAX_KICK: u32 = 16;

// ---------------------------------------------------------------------------
// Model
// ---------------------------------------------------------------------------
/// `n` is a power of two.
pub open spec fn power_of_two(n: int) -> bool
    decreases n,
{
    n == 1 || (n > 1 && n % 2 == 0 && power_of_two(n / 2))
}

/// First candidate slot of a key in a table of `n` slots.
pub open spec fn h1_of(hash: u64, n: int) -> int {
    hash as int % n
}

/// Second candidate slot of a key in a table of `n` slots: always odd.
pub open spec fn h2_of(hash: u64, n: int) -> int {
    let x = (hash as int / 0x1_0000_0000) % n;
    if x % 2 == 0 {
        x + 1
    } else {
        x
    }
}

/// Every slot that a key can be sent to exists: the table has more than one
/// slot.
pub open spec fn two_choice(n: int) -> bool {
    n >= 2 && n % 2 == 0
}

/// A table of `n` slots in which nothing was ever written.
pub open spec fn empty_table(n: nat) -> Seq<Slot> {
    Seq::new(n, |i: int| layout::zero_slot())
}

/// The slot that holds a key: the first candidate before the second.
pub open spec fn find_in(t: Seq<Slot>, hash: u64, digest: Seq<u8>) -> Option<int> {
    let n = t.len() as int;
    if layout::holds(t[h1_of(hash, n)], hash, digest) {
        Some(h1_of(hash, n))
    } else if layout::holds(t[h2_of(hash, n)], hash, digest) {
        Some(h2_of(hash, n))
    } else {
        None
    }
}

/// The slot of an occupant other than the one, `at`, where it sits.
pub open spec fn alternate_of(hash: u64, at: int, n: int) -> int {
    if at == h1_of(hash, n) {
        h2_of(hash, n)
    } else {
        h1_of(hash, n)
    }
}

/// The same key and value in a slot that was just written.
pub open spec fn refreshed(s: Slot) -> Slot {
    layout::fresh_slot(s.hash, s.digest, s.body, layout::word_extent(s.lock))
}

/// Eviction with `hand` on its way into slot `at` and `fuel` kicks left: the
/// table that results, or none when the kicks run out first.
pub open spec fn kick_in(t: Seq<Slot>, at: int, hand: Slot, fuel: nat) -> Option<Seq<Slot>>
    decreases fuel,
{
    if fuel == 0 {
        None
    } else {
        let victim = refreshed(t[at]);
        let swapped = t.update(at, hand);
        let alt = alternate_of(victim.hash, at, t.len() as int);
        if layout::vacant(swapped[alt]) {
            Some(swapped.update(alt, victim))
        } else {
            kick_in(swapped, alt, victim, (fuel - 1) as nat)
        }
    }
}

/// Insertion of `new`: over the same key if it is there, else into a vacant
/// candidate slot, else by eviction from the first candidate slot. The result
/// is the table, and whether `new` found a place; if not, the table is as it was.
pub open spec fn insert_in(t: Seq<Slot>, new: Slot, max_kick: nat) -> (Seq<Slot>, bool) {
    let n = t.len() as int;
    let (a, b) = (h1_of(new.hash, n), h2_of(new.hash, n));
    match find_in(t, new.hash, new.digest) {
        Some(i) => (t.update(i, new), true),
        None => if layout::vacant(t[a]) {
            (t.update(a, new), true)
        } else if layout::vacant(t[b]) {
            (t.update(b, new), true)
        } else {
            match kick_in(t, a, new, max_kick) {
                Some(u) => (u, true),
                None => (t, false),
            }
        },
    }
}

/// The table before the writes of which `log` keeps the slot and the bucket that
/// stood there, the latest write last.
pub open spec fn undone(t: Seq<Slot>, log: Seq<(usize, HashBucket)>) -> Seq<Slot>
    decreases log.len(),
{
    if log.len() == 0 {
        t
    } else {
        undone(t.update(log.last().0 as int, log.last().1@), log.drop_last())
    }
}

/// The 32-byte body that holds `value`: its first 32 bytes in Inline mode, its
/// first 16 in Extent mode, padded with zeros.
pub open spec fn packed(value: Seq<u8>, extent: bool) -> Seq<u8> {
    let limit = if extent {
        16int
    } else {
        32
    };
    Seq::new(
        32,
        |i: int|
            if i < limit && i < value.len() {
                value[i]
            } else {
                0u8
            },
    )
}

/// The body that holds an extent reference.
pub open spec fn extent_body(offset: u64, length: u64) -> Seq<u8> {
    codec::le_digits(offset as nat, 8) + codec::le_digits(length as nat, 8) + Seq::new(
        16,
        |i: int| 0u8,
    )
}

/// The tombstone that a deletion leaves in a slot.
pub open spec fn tombstoned(s: Slot) -> Slot {
    Slot {
        lock: layout::lock_word(
            layout::word_version(s.lock),
            0,
            layout::word_extent(s.lock),
            true,
            false,
        ) as u64,
        ..s
    }
}

/// An unlocked slot that holds the key.
pub open spec fn readable(s: Slot, hash: u64, digest: Seq<u8>) -> bool {
    !layout::word_locked(s.lock) && layout::holds(s, hash, digest)
}

/// The unlocked slot that holds a key: the first candidate before the second.
pub open spec fn find_unlocked(t: Seq<Slot>, hash: u64, digest: Seq<u8>) -> Option<int> {
    let n = t.len() as int;
    let (a, b) = (h1_of(hash, n), h2_of(hash, n) % n);
    if readable(t[a], hash, digest) {
        Some(a)
    } else if readable(t[b], hash, digest) {
        Some(b)
    } else {
        None
    }
}

/// The slot takes a new key without a lock: it is vacant and unlocked.
pub open spec fn claimable(s: Slot) -> bool {
    !layout::word_locked(s.lock) && layout::vacant(s)
}

/// What a lock-free insertion leaves in a slot: in Extent mode the body is not
/// touched.
pub open spec fn claimed(s: Slot, key: HashedKey, value: Seq<u8>, extent: bool) -> Slot {
    layout::fresh_slot(
        key.hash,
        key.digest@,
        if extent {
            s.body
        } else {
            packed(value, false)
        },
        extent,
    )
}

// ---------------------------------------------------------------------------
// Candidate slots
// ---------------------------------------------------------------------------
/// The candidate slots of a key lie inside the table.
pub proof fn lemma_candidates(hash: u64, n: int)
    requires
        two_choice(n),
    ensures
        0 <= h1_of(hash, n) < n,
        0 <= h2_of(hash, n) < n,
        h2_of(hash, n) % 2 == 1,
{
    vstd::arithmetic::div_mod::lemma_mod_bound(hash as int, n);
    vstd::arithmetic::div_mod::lemma_mod_bound(hash as int / 0x1_0000_0000, n);
}

/// A power of two above one is even.
pub proof fn lemma_power_of_two(n: int)
    requires
        power_of_two(n),
    ensures
        n == 1 || two_choice(n),
{
}

/// Whether `n` is a power of two.
pub fn is_power_of_two(n: u64) -> (b: bool)
    ensures
        b == power_of_two(n as int),
{
    if n == 0 {
        return false;
    }
    let mut m: u64 = n;
    while m % 2 == 0
        invariant
            m > 0,
            power_of_two(n as int) == power_of_two(m as int),
        decreases m,
    {
        m = m / 2;
    }
    m == 1
}

/// First candidate slot of a key in a table of `n` slots.
pub fn primary_slot(hash: u64, n: u64) -> (i: u64)
    requires
        n > 0,
    ensures
        i == h1_of(hash, n as int),
        i < n,
{
    hash % n
}

/// Second candidate slot of a key in a table of `n` slots.
pub fn secondary_slot(hash: u64, n: u64) -> (i: u64)
    requires
        n > 0,
    ensures
        i == h2_of(hash, n as int),
        two_choice(n as int) ==> i < n,
{
    assert(hash >> 32 == hash / 0x1_0000_0000) by (bit_vector);
    let x: u64 = (hash >> 32) % n;
    assert(x % 2 == 0 ==> x | 1 == x + 1) by (bit_vector);
    assert(x % 2 == 1 ==> x | 1 == x) by (bit_vector);
    x | 1
}

// ---------------------------------------------------------------------------
// Public types
// ---------------------------------------------------------------------------
/// A Cuckoo hash table with two-choice hashing and kick-chain eviction.
///
/// Stores exactly `bucket_count` [`HashBucket`] entries.
///
/// # Requirements
///
/// - `bucket_count` must be a power of 2.
/// - `bucket_count >= expected_max_keys * 2` (load factor at most 50 %).
pub struct CuckooTable {
    buckets: Vec<HashBucket>,
    bucket_count: u64,
    max_kick: u32,
}

/// Errors returned by Cuckoo insertions.
#[derive(Debug, Clone, Copy, PartialEq, Eq, Structural)]
pub enum CuckooError {
    /// The kick chain exceeded `max_kick`: the table is effectively full.
    TableFull,
    /// The supplied key has a zero hash (reserved for "empty" sentinel).
    InvalidKey,
}

/// Result of a successful lookup.
#[derive(Debug)]
pub struct LookupResult {
    /// Raw body bytes (32 bytes).  For Inline mode this is the value itself
    /// (zero-padded to 32 B); for Extent mode this contains the packed
    /// `(offset, length)` pointer.
    pub value: Vec<u8>,
    /// Whether the bucket is Inline or Extent.
    pub mode: BucketMode,
    /// Extent offset (le bytes from body[0..8]), meaningful for Extent mode.
    pub extent_offset: u64,
    /// Extent length (le bytes from body[8..16]), meaningful for Extent mode.
    pub extent_length: u64,
}

impl Clone for LookupResult {
    fn clone(&self) -> (r: Self)
        ensures
            r.value@ == self.value@,
            r.mode == self.mode,
            r.extent_offset == self.extent_offset,
            r.extent_length == self.extent_length,
    {
        let value: Vec<u8> = vstd::slice::slice_to_vec(&self.value);
        LookupResult {
            value,
            mode: self.mode,
            extent_offset: self.extent_offset,
            extent_length: self.extent_length,
        }
    }
}

/// The result that a lookup makes of a slot.
pub open spec fn result_of(r: LookupResult, s: Slot) -> bool {
    &&& r.value@ == s.body
    &&& (r.mode == BucketMode::Extent) == layout::word_extent(s.lock)
    &&& (r.extent_offset as nat, r.extent_length as nat) == if layout::word_extent(s.lock) {
        layout::body_extent_ref(s.body)
    } else {
        (0nat, 0nat)
    }
}

// ---------------------------------------------------------------------------
// CuckooTable
// ---------------------------------------------------------------------------
impl View for CuckooTable {
    type V = Seq<Slot>;

    closed spec fn view(&self) -> Seq<Slot> {
        layout::slots(self.buckets@)
    }
}

impl CuckooTable {
    /// The buckets are as many as recorded, and that is a power of two.
    pub closed spec fn wf(&self) -> bool {
        &&& self.buckets.len() == self.bucket_count
        &&& power_of_two(self.bucket_count as int)
    }

    /// How many kicks an insertion may make.
    pub closed spec fn kick_limit(&self) -> nat {
        self.max_kick as nat
    }

    /// The number of slots is a power of two that fits in a `u64`.
    pub proof fn lemma_wf(&self)
        requires
            self.wf(),
        ensures
            power_of_two(self@.len() as int),
            1 <= self@.len() <= u64::MAX,
            self@.len() == 1 || two_choice(self@.len() as int),
    {
        lemma_power_of_two(self.bucket_count as int);
    }

    /// Create a new empty Cuckoo hash table.
    pub fn new(bucket_count: u64, max_kick: u32) -> (r: Self)
        requires
            power_of_two(bucket_count as int),
            bucket_count <= usize::MAX,
        ensures
            r.wf(),
            r@ == empty_table(bucket_count as nat),
            r.kick_limit() == max_kick,
    {
        let count: usize = bucket_count as usize;
        let mut buckets: Vec<HashBucket> = Vec::with_capacity(count);
        while buckets.len() < count
            invariant
                buckets.len() <= count,
                forall|i: int|
                    0 <= i < buckets.len() ==> (#[trigger] buckets@[i])@ == layout::zero_slot(),
            decreases count - buckets.len(),
        {
            buckets.push(HashBucket::zeroed());
        }
        CuckooTable { buckets, bucket_count, max_kick }
    }

    /// Return the number of buckets.
    pub fn bucket_count(&self) -> (n: u64)
        requires
            self.wf(),
        ensures
            n == self@.len(),
    {
        self.bucket_count
    }

    /// Return a reference to the raw bucket slice (for readers such as the
    /// client read path).
    pub fn buckets(&self) -> (b: &[HashBucket])
        ensures
            layout::slots(b@) == self@,
    {
        &self.buckets
    }

    /// Get a mutable reference to a bucket by index.
    pub fn bucket_mut(&mut self, idx: u64) -> (b: &mut HashBucket)
        requires
            old(self).wf(),
            idx < old(self)@.len(),
        ensures
            b@ == old(self)@[idx as int],
            final(self).wf(),
            final(self).kick_limit() == old(self).kick_limit(),
            final(self)@ == old(self)@.update(idx as int, final(b)@),
    {
        &mut self.buckets[idx as usize]
    }

    /// First candidate slot: `hash % bucket_count`.
    pub fn h1(&self, hash: u64) -> (i: usize)
        requires
            self.wf(),
        ensures
            i == h1_of(hash, self@.len() as int),
            i < self@.len(),
    {
        primary_slot(hash, self.bucket_count) as usize
    }

    /// Second candidate slot: `((hash >> 32) % bucket_count) | 1` (always odd).
    pub fn h2(&self, hash: u64) -> (i: usize)
        requires
            self.wf(),
            self@.len() >= 2,
        ensures
            i == h2_of(hash, self@.len() as int),
            i < self@.len(),
    {
        proof {
            self.lemma_wf();
        }
        secondary_slot(hash, self.bucket_count) as usize
    }

    /// Pack a value slice into a 32-byte body array.
    fn pack_body(value: &[u8], mode: BucketMode) -> (body: [u8; 32])
        ensures
            body@ == packed(value@, mode == BucketMode::Extent),
    {
        let mut body: [u8; 32] = [0u8; 32];
        let max_len: usize = match mode {
            BucketMode::Inline => 32,
            BucketMode::Extent => 16,
        };
        let len: usize = if value.len() < max_len {
            value.len()
        } else {
            max_len
        };
        let mut i: usize = 0;
        while i < len
            invariant
                i <= len <= 32,
                len <= value@.len(),
                forall|j: int| 0 <= j < i ==> body@[j] == value@[j],
                forall|j: int| i <= j < 32 ==> body@[j] == 0,
            decreases len - i,
        {
            body[i] = value[i];
            i = i + 1;
        }
        assert(body@ =~= packed(value@, mode == BucketMode::Extent));
        body
    }

    /// The body that holds an extent reference.
    fn pack_extent(offset: u64, length: u64) -> (body: [u8; 32])
        ensures
            body@ == extent_body(offset, length),
    {
        let mut b = HashBucket::zeroed();
        b.set_extent_ref(offset, length);
        assert(b.body@ =~= extent_body(offset, length));
        b.body
    }

    /// Scan the two candidate slots for an existing matching key.
    fn find_key_idx(&self, hash: u64, digest: &[u8; 16]) -> (r: Option<usize>)
        requires
            self.wf(),
            self@.len() >= 2 || layout::holds(
                self@[h1_of(hash, self@.len() as int)],
                hash,
                digest@,
            ),
        ensures
            match r {
                Some(i) => find_in(self@, hash, digest@) == Some(i as int) && i < self@.len(),
                None => find_in(self@, hash, digest@) is None,
            },
    {
        let h1: usize = self.h1(hash);
        if self.buckets[h1].matches_key(hash, digest) && !self.buckets[h1].is_tombstone() {
            return Some(h1);
        }
        let h2: usize = self.h2(hash);
        if self.buckets[h2].matches_key(hash, digest) && !self.buckets[h2].is_tombstone() {
            return Some(h2);
        }
        None
    }

    /// Whether the slot can take a new key: it is empty or a tombstone.
    fn is_vacant(&self, idx: usize) -> (b: bool)
        requires
            idx < self@.len(),
        ensures
            b == layout::vacant(self@[idx as int]),
    {
        self.buckets[idx].is_empty() || self.buckets[idx].is_tombstone()
    }

    /// Write (hash, digest, body, mode) into a specific slot, overwriting
    /// anything that was there.  Sets `lock_version` to the mode bits only.
    fn write_slot(
        &mut self,
        idx: usize,
        hash: u64,
        digest: [u8; 16],
        body: [u8; 32],
        mode: BucketMode,
    )
        requires
            old(self).wf(),
            idx < old(self)@.len(),
        ensures
            final(self).wf(),
            final(self).kick_limit() == old(self).kick_limit(),
            final(self)@ == old(self)@.update(
                idx as int,
                layout::fresh_slot(hash, digest@, body@, mode == BucketMode::Extent),
            ),
    {
        let lock_version: u64 = layout::make_lock_word(0, 0, mode, false, false);
        self.buckets[idx] = HashBucket {
            lock_version,
            key_hash: hash,
            key_or_digest: digest,
            body,
        };
        assert(self@ =~= old(self)@.update(
            idx as int,
            layout::fresh_slot(hash, digest@, body@, mode == BucketMode::Extent),
        ));
    }

    /// Core insert logic after validation and body packing.
    fn insert_raw(
        &mut self,
        hash: u64,
        digest: [u8; 16],
        body: [u8; 32],
        mode: BucketMode,
    ) -> (r: Result<(), CuckooError>)
        requires
            old(self).wf(),
            old(self)@.len() >= 2 || layout::holds(
                old(self)@[h1_of(hash, old(self)@.len() as int)],
                hash,
                digest@,
            ),
        ensures
            final(self).wf(),
            final(self).kick_limit() == old(self).kick_limit(),
            ({
                let (t, placed) = insert_in(
                    old(self)@,
                    layout::fresh_slot(hash, digest@, body@, mode == BucketMode::Extent),
                    old(self).kick_limit(),
                );
                final(self)@ == t && r == if placed {
                    Ok::<(), CuckooError>(())
                } else {
                    Err(CuckooError::TableFull)
                }
            }),
    {
        // Overwrite if key already exists (idempotent insert).
        if let Some(idx) = self.find_key_idx(hash, &digest) {
            self.write_slot(idx, hash, digest, body, mode);
            return Ok(());
        }
        // Try empty or tombstone slots in h1, h2 order.

        let h1: usize = self.h1(hash);
        if self.is_vacant(h1) {
            self.write_slot(h1, hash, digest, body, mode);
            return Ok(());
        }
        let h2: usize = self.h2(hash);
        if self.is_vacant(h2) {
            self.write_slot(h2, hash, digest, body, mode);
            return Ok(());
        }
        // Both slots occupied: start kick chain from h1.

        self.kick_chain(h1, hash, digest, body, mode)
    }

    /// Kick-chain insertion starting at `start_idx`.
    ///
    /// Iteratively evicts the occupant of the current slot to its alternate
    /// location, cascading until an empty/tombstone slot is found or
    /// `max_kick` is exhausted.
    ///
    /// On failure (`TableFull`) every bucket is put back as it was.
    fn kick_chain(
        &mut self,
        start_idx: usize,
        hash: u64,
        digest: [u8; 16],
        body: [u8; 32],
        mode: BucketMode,
    ) -> (r: Result<(), CuckooError>)
        requires
            old(self).wf(),
            old(self)@.len() >= 2,
            start_idx < old(self)@.len(),
        ensures
            final(self).wf(),
            final(self).kick_limit() == old(self).kick_limit(),
            match kick_in(
                old(self)@,
                start_idx as int,
                layout::fresh_slot(hash, digest@, body@, mode == BucketMode::Extent),
                old(self).kick_limit(),
            ) {
                Some(t) => final(self)@ == t && r == Ok::<(), CuckooError>(()),
                None => final(self)@ == old(self)@ && r == Err::<(), CuckooError>(
                    CuckooError::TableFull,
                ),
            },
    {
        let mut cur_idx: usize = start_idx;
        let mut cur_hash: u64 = hash;
        let mut cur_digest: [u8; 16] = digest;
        let mut cur_body: [u8; 32] = body;
        let mut cur_mode: BucketMode = mode;
        // The buckets that the chain overwrote.
        let mut log: Vec<(usize, HashBucket)> = Vec::new();
        let mut kicks: u32 = 0;
        while kicks < self.max_kick
            invariant
                self.wf(),
                self@.len() == old(self)@.len(),
                self@.len() >= 2,
                self.kick_limit() == old(self).kick_limit(),
                kicks <= self.max_kick,
                cur_idx < self@.len(),
                forall|i: int| 0 <= i < log@.len() ==> (#[trigger] log@[i]).0 < self@.len(),
                undone(self@, log@) == old(self)@,
                kick_in(
                    old(self)@,
                    start_idx as int,
                    layout::fresh_slot(hash, digest@, body@, mode == BucketMode::Extent),
                    old(self).kick_limit(),
                ) == kick_in(
                    self@,
                    cur_idx as int,
                    layout::fresh_slot(
                        cur_hash,
                        cur_digest@,
                        cur_body@,
                        cur_mode == BucketMode::Extent,
                    ),
                    (self.kick_limit() - kicks) as nat,
                ),
            decreases self.max_kick - kicks,
        {
            // 1. Snapshot the current occupant.
            let occupant: HashBucket = self.buckets[cur_idx];
            let occ_hash: u64 = occupant.key_hash;
            let occ_digest: [u8; 16] = occupant.key_or_digest;
            let occ_body: [u8; 32] = occupant.body;
            let occ_mode: BucketMode = layout::lock_word_mode(occupant.lock_version);
            // 2. Overwrite current slot with the incoming key.
            let ghost before = self@;
            let ghost shorter = log@;
            log.push((cur_idx, occupant));
            self.write_slot(cur_idx, cur_hash, cur_digest, cur_body, cur_mode);
            proof {
                assert(log@.drop_last() =~= shorter);
                assert(self@.update(cur_idx as int, occupant@) =~= before);
            }
            // 3. Compute the occupant's alternate bucket (the one it is NOT
            //    currently sitting in).
            let occ_h1: usize = self.h1(occ_hash);
            let occ_h2: usize = self.h2(occ_hash);
            let alt_idx: usize = if cur_idx == occ_h1 {
                occ_h2
            } else {
                occ_h1
            };
            // 4. If the alternate is empty/tombstone, write the occupant there.
            if self.is_vacant(alt_idx) {
                self.write_slot(alt_idx, occ_hash, occ_digest, occ_body, occ_mode);
                return Ok(());
            }
            // 5. Cascade: the alternate's occupant becomes the next victim.

            cur_hash = occ_hash;
            cur_digest = occ_digest;
            cur_body = occ_body;
            cur_mode = occ_mode;
            cur_idx = alt_idx;
            kicks = kicks + 1;
        }
        self.undo(log);
        Err(CuckooError::TableFull)
    }

    /// Puts the logged buckets back, the latest first.
    fn undo(&mut self, log: Vec<(usize, HashBucket)>)
        requires
            old(self).wf(),
            forall|i: int| 0 <= i < log@.len() ==> (#[trigger] log@[i]).0 < old(self)@.len(),
        ensures
            final(self).wf(),
            final(self).kick_limit() == old(self).kick_limit(),
            final(self)@ == undone(old(self)@, log@),
    {
        let mut left: usize = log.len();
        assert(log@.take(left as int) =~= log@);
        while left > 0
            invariant
                left <= log@.len(),
                self.wf(),
                self.kick_limit() == old(self).kick_limit(),
                self@.len() == old(self)@.len(),
                forall|i: int| 0 <= i < log@.len() ==> (#[trigger] log@[i]).0 < self@.len(),
                undone(self@, log@.take(left as int)) == undone(old(self)@, log@),
            decreases left,
        {
            let ghost rest = log@.take(left as int);
            left = left - 1;
            let (idx, bucket): (usize, HashBucket) = log[left];
            let ghost before = self@;
            self.buckets[idx] = bucket;
            proof {
                assert(rest.drop_last() =~= log@.take(left as int));
                assert(rest.last() == log@[left as int]);
                assert(self@ =~= before.update(idx as int, bucket@));
            }
        }
        assert(log@.take(0) =~= Seq::<(usize, HashBucket)>::empty());
    }

    /// Insert a key-value pair.
    ///
    /// - **Inline** mode: `value` is the payload (at most 32 B), copied directly
    ///   into the bucket body.
    /// - **Extent** mode: `value` is interpreted as a packed extent reference:
    ///   `value[0..8]` = offset (le u64), `value[8..16]` = length (le u64).
    ///
    /// If the key already exists, the existing entry is overwritten.
    ///
    /// # Errors
    ///
    /// Returns [`CuckooError::TableFull`] when the kick chain reaches
    /// `max_kick` without finding an empty slot. The table is then as it was
    /// before the call.
    ///
    /// Returns [`CuckooError::InvalidKey`] when `key.hash == 0`.
    pub fn insert(&mut self, key: &HashedKey, value: &[u8], mode: BucketMode) -> (r: Result<
        (),
        CuckooError,
    >)
        requires
            old(self).wf(),
            old(self)@.len() >= 2 || key.hash == 0 || layout::holds(
                old(self)@[h1_of(key.hash, old(self)@.len() as int)],
                key.hash,
                key.digest@,
            ),
        ensures
            final(self).wf(),
            final(self).kick_limit() == old(self).kick_limit(),
            key.hash == 0 ==> final(self)@ == old(self)@ && r == Err::<(), CuckooError>(
                CuckooError::InvalidKey,
            ),
            key.hash != 0 ==> ({
                let (t, placed) = insert_in(
                    old(self)@,
                    layout::fresh_slot(
                        key.hash,
                        key.digest@,
                        packed(value@, mode == BucketMode::Extent),
                        mode == BucketMode::Extent,
                    ),
                    old(self).kick_limit(),
                );
                final(self)@ == t && r == if placed {
                    Ok::<(), CuckooError>(())
                } else {
                    Err(CuckooError::TableFull)
                }
            }),
            r is Err ==> final(self)@ == old(self)@,
    {
        if key.hash == 0 {
            return Err(CuckooError::InvalidKey);
        }
        let body: [u8; 32] = Self::pack_body(value, mode);
        self.insert_raw(key.hash, key.digest, body, mode)
    }

    /// Insert with an explicit extent reference (offset, length).
    ///
    /// Convenience wrapper around [`insert`](Self::insert) for the Extent case.
    pub fn insert_extent(&mut self, key: &HashedKey, offset: u64, length: u64) -> (r: Result<
        (),
        CuckooError,
    >)
        requires
            old(self).wf(),
            old(self)@.len() >= 2 || key.hash == 0 || layout::holds(
                old(self)@[h1_of(key.hash, old(self)@.len() as int)],
                key.hash,
                key.digest@,
            ),
        ensures
            final(self).wf(),
            final(self).kick_limit() == old(self).kick_limit(),
            key.hash == 0 ==> final(self)@ == old(self)@ && r == Err::<(), CuckooError>(
                CuckooError::InvalidKey,
            ),
            key.hash != 0 ==> ({
                let (t, placed) = insert_in(
                    old(self)@,
                    layout::fresh_slot(key.hash, key.digest@, extent_body(offset, length), true),
                    old(self).kick_limit(),
                );
                final(self)@ == t && r == if placed {
                    Ok::<(), CuckooError>(())
                } else {
                    Err(CuckooError::TableFull)
                }
            }),
            r is Err ==> final(self)@ == old(self)@,
    {
        if key.hash == 0 {
            return Err(CuckooError::InvalidKey);
        }
        let body: [u8; 32] = Self::pack_extent(offset, length);
        self.insert_raw(key.hash, key.digest, body, BucketMode::Extent)
    }

    /// Read a bucket's contents as a [`LookupResult`].
    fn read_bucket_value(bucket: &HashBucket) -> (r: LookupResult)
        ensures
            result_of(r, bucket@),
    {
        let mode: BucketMode = layout::lock_word_mode(bucket.lock_version);
        let (extent_offset, extent_length): (u64, u64) = match mode {
            BucketMode::Extent => bucket.extent_ref(),
            BucketMode::Inline => (0, 0),
        };
        let value: Vec<u8> = vstd::slice::slice_to_vec(&bucket.body);
        LookupResult { value, mode, extent_offset, extent_length }
    }

    /// Lookup a key.  Returns the bucket contents if found.
    ///
    /// Does **not** perform lock/version validation: that is the caller's
    /// responsibility (see [`crate::engine::concurrency`] for the optimistic read
    /// protocol).
    pub fn lookup(&self, key: &HashedKey) -> (r: Option<LookupResult>)
        requires
            self.wf(),
            self@.len() >= 2 || layout::holds(
                self@[h1_of(key.hash, self@.len() as int)],
                key.hash,
                key.digest@,
            ),
        ensures
            match r {
                Some(found) => find_in(self@, key.hash, key.digest@) matches Some(i) && result_of(
                    found,
                    self@[i],
                ),
                None => find_in(self@, key.hash, key.digest@) is None,
            },
    {
        match self.find_key_idx(key.hash, &key.digest) {
            Some(idx) => Some(Self::read_bucket_value(&self.buckets[idx])),
            None => None,
        }
    }

    /// Delete a key.  Marks the bucket as a tombstone.
    ///
    /// Returns `true` if the key was found and deleted, `false` otherwise.
    pub fn delete(&mut self, key: &HashedKey) -> (r: bool)
        requires
            old(self).wf(),
            old(self)@.len() >= 2 || layout::holds(
                old(self)@[h1_of(key.hash, old(self)@.len() as int)],
                key.hash,
                key.digest@,
            ),
        ensures
            final(self).wf(),
            final(self).kick_limit() == old(self).kick_limit(),
            match find_in(old(self)@, key.hash, key.digest@) {
                Some(i) => r && final(self)@ == old(self)@.update(i, tombstoned(old(self)@[i])),
                None => !r && final(self)@ == old(self)@,
            },
    {
        if let Some(idx) = self.find_key_idx(key.hash, &key.digest) {
            let mut b: HashBucket = self.buckets[idx];
            b.mark_tombstone();
            self.buckets[idx] = b;
            assert(self@ =~= old(self)@.update(idx as int, tombstoned(old(self)@[idx as int])));
            true
        } else {
            false
        }
    }

    /// Claims a slot for a key if it is vacant and unlocked.
    fn try_cas_insert(&mut self, key: &HashedKey, value: &[u8], mode: BucketMode, idx: usize) -> (r:
        bool)
        requires
            old(self).wf(),
            idx < old(self)@.len(),
        ensures
            final(self).wf(),
            final(self).kick_limit() == old(self).kick_limit(),
            r == claimable(old(self)@[idx as int]),
            final(self)@ == if r {
                old(self)@.update(
                    idx as int,
                    claimed(old(self)@[idx as int], *key, value@, mode == BucketMode::Extent),
                )
            } else {
                old(self)@
            },
    {
        if self.buckets[idx].is_locked() {
            return false;
        }
        if !self.is_vacant(idx) {
            return false;
        }
        let body: [u8; 32] = match mode {
            BucketMode::Inline => Self::pack_body(value, mode),
            // Extent offset/length are set by the caller via `set_extent_ref`.
            BucketMode::Extent => self.buckets[idx].body,
        };
        self.write_slot(idx, key.hash, key.digest, body, mode);
        true
    }

    /// Insert into the first candidate slot that is vacant and unlocked; no
    /// eviction takes place, and an entry of the same key elsewhere stays.
    pub fn insert_lock_free(&mut self, key: &HashedKey, value: &[u8], mode: BucketMode) -> (r:
        Result<(), CuckooError>)
        requires
            old(self).wf(),
            old(self)@.len() >= 2 || key.hash == 0 || claimable(
                old(self)@[h1_of(key.hash, old(self)@.len() as int)],
            ),
        ensures
            final(self).wf(),
            final(self).kick_limit() == old(self).kick_limit(),
            ({
                let t = old(self)@;
                let (a, b) = (h1_of(key.hash, t.len() as int), h2_of(key.hash, t.len() as int));
                let extent = mode == BucketMode::Extent;
                (final(self)@, r) == if key.hash == 0 {
                    (t, Err::<(), CuckooError>(CuckooError::InvalidKey))
                } else if claimable(t[a]) {
                    (t.update(a, claimed(t[a], *key, value@, extent)), Ok(()))
                } else if claimable(t[b]) {
                    (t.update(b, claimed(t[b], *key, value@, extent)), Ok(()))
                } else {
                    (t, Err(CuckooError::TableFull))
                }
            }),
    {
        if key.hash == 0 {
            return Err(CuckooError::InvalidKey);
        }
        let h1: usize = self.h1(key.hash);
        if self.try_cas_insert(key, value, mode, h1) {
            return Ok(());
        }
        let h2: usize = self.h2(key.hash);
        if self.try_cas_insert(key, value, mode, h2) {
            return Ok(());
        }
        Err(CuckooError::TableFull)
    }

    /// Lookup without a lock: the first unlocked candidate slot that holds the key.
    /// Deleted keys are not found.
    pub fn lookup_lock_free(&self, key: &HashedKey) -> (r: Option<LookupResult>)
        requires
            self.wf(),
        ensures
            match r {
                Some(found) => find_unlocked(self@, key.hash, key.digest@) matches Some(i)
                    && result_of(found, self@[i]),
                None => find_unlocked(self@, key.hash, key.digest@) is None,
            },
    {
        let h1: usize = self.h1(key.hash);
        let h2: usize = (secondary_slot(key.hash, self.bucket_count) % self.bucket_count) as usize;
        if self.is_readable(key, h1) {
            return Some(Self::read_bucket_value(&self.buckets[h1]));
        }
        if self.is_readable(key, h2) {
            return Some(Self::read_bucket_value(&self.buckets[h2]));
        }
        None
    }

    /// Whether the slot is unlocked and holds the key; a tombstone holds none.
    fn is_readable(&self, key: &HashedKey, idx: usize) -> (b: bool)
        requires
            idx < self@.len(),
        ensures
            b == readable(self@[idx as int], key.hash, key.digest@),
    {
        let bucket: &HashBucket = &self.buckets[idx];
        !bucket.is_locked() && bucket.matches_key(key.hash, &key.digest) && !bucket.is_tombstone()
    }

    /// Reads the slot if it is unlocked and holds the key.
    fn try_read_bucket(&self, key: &HashedKey, idx: usize) -> (r: Option<(Vec<u8>, BucketMode)>)
        requires
            idx < self@.len(),
        ensures
            r is Some == readable(self@[idx as int], key.hash, key.digest@),
            r matches Some(found) ==> fast_result(found, self@[idx as int]),
    {
        if !self.is_readable(key, idx) {
            return None;
        }
        if self.buckets[idx].is_inline() {
            Some((vstd::slice::slice_to_vec(self.buckets[idx].inline_value()), BucketMode::Inline))
        } else {
            // Extent mode: the caller reads from the large object region.
            Some((Vec::new(), BucketMode::Extent))
        }
    }

    /// Fast-path lookup: computes h1/h2 and checks buckets inline.
    /// Returns (value, mode) if found, None otherwise. Locked buckets and deleted
    /// keys are not found.
    pub fn get_fast(&self, key: &HashedKey) -> (r: Option<(Vec<u8>, BucketMode)>)
        requires
            self.wf(),
            self@.len() >= 2 || readable(
                self@[h1_of(key.hash, self@.len() as int)],
                key.hash,
                key.digest@,
            ),
        ensures
            match r {
                Some(found) => find_unlocked(self@, key.hash, key.digest@) matches Some(i)
                    && fast_result(found, self@[i]),
                None => find_unlocked(self@, key.hash, key.digest@) is None,
            },
    {
        proof {
            if self@.len() >= 2 {
                let n = self@.len() as int;
                lemma_power_of_two(n);
                lemma_candidates(key.hash, n);
                vstd::arithmetic::div_mod::lemma_small_mod(h2_of(key.hash, n) as nat, n as nat);
            }
        }
        let h1: usize = self.h1(key.hash);
        if let Some(found) = self.try_read_bucket(key, h1) {
            return Some(found);
        }
        let h2: usize = self.h2(key.hash);
        self.try_read_bucket(key, h2)
    }
}

/// What a fast-path lookup makes of a slot: the body in Inline mode, no bytes in
/// Extent mode.
pub open spec fn fast_result(r: (Vec<u8>, BucketMode), s: Slot) -> bool {
    if layout::word_extent(s.lock) {
        r.1 == BucketMode::Extent && r.0@.len() == 0
    } else {
        r.1 == BucketMode::Inline && r.0@ == s.body
    }
}

} // verus!
