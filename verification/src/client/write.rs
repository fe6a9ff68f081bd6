//! Client write path: one-sided CAS-based Cuckoo insert with kick chain.
//!
//! # Distributed kick-chain algorithm
//!
//! 1. Client computes h1, h2 for the key.
//! 2. Tries h1: empty or tombstone: write key, done.
//! 3. Tries h2: same.
//! 4. If both occupied: start kick chain from h1:
//!    a. Displace occupant at h1; write new key into h1.
//!    b. Compute displaced occupant's alternate bucket (the one it is NOT in).
//!    c. If alternate empty: write occupant there, done.
//!    d. Else: repeat with alternate's occupant as the next victim.
//! 5. If chain reaches MAX_KICK: return `TableFull`.
//!
//! [`ClientWriter::insert`] writes a table at hand;
//! [`RemoteInsert`](crate::client::remote_write::RemoteInsert) is the direct
//! placement as a state machine over remote operations.

use vstd::prelude::*;

use crate::codec;
use crate::engine::cuckoo;
use crate::engine::extent;
use crate::engine::extent::{LargeObjectRegion, RegionState};
use crate::engine::layout;
use crate::engine::layout::{BucketMode, HashBucket, HashedKey, Slot};
use crate::error::{ErrorView, RdmaError};

verus! {

/// Maximum kick-chain length before declaring the table full.
pub const MAX_KICK: u32 = 16;

// ---------------------------------------------------------------------------
// Model
// ---------------------------------------------------------------------------
/// How a write ends.
pub enum Outcome {
    /// The key was placed in this slot.
    Placed(int),
    /// No slot was found.
    Full,
    /// The write failed with this message.
    Failed(Seq<char>),
}

/// The table and the region after a write, and how it ended.
pub struct Written {
    pub table: Seq<Slot>,
    pub region: Option<RegionState>,
    pub outcome: Outcome,
}

/// What the writer may put into a slot for the key: the slot contents and the
/// region afterwards, or the message of the failure. Inline values go into the
/// body; in Extent mode an extent is allocated, and its reference goes into the
/// first half of a body whose second half is `tail`.
pub open spec fn new_entry(
    key: HashedKey,
    value: Seq<u8>,
    extent: bool,
    region: Option<RegionState>,
    tail: Seq<u8>,
) -> (Result<Slot, Seq<char>>, Option<RegionState>) {
    if !extent {
        (
            Ok(
                layout::fresh_slot(
                    key.hash,
                    key.digest@,
                    cuckoo::packed(value, false),
                    false,
                ),
            ),
            region,
        )
    } else {
        match region {
            None => (Err("Extent mode requires a LargeObjectRegion"@), None),
            Some(r) => match extent::allocate_in(r, value) {
                (r2, Some(off)) => (
                    Ok(
                        layout::fresh_slot(
                            key.hash,
                            key.digest@,
                            codec::le_digits(off as nat, 8) + codec::le_digits(value.len(), 8)
                                + tail,
                            true,
                        ),
                    ),
                    Some(r2),
                ),
                (r2, None) => (Err("extent allocation failed"@), Some(r2)),
            },
        }
    }
}

/// A direct placement in slot `at`: nothing changes in the table when it fails.
pub open spec fn place_in(
    t: Seq<Slot>,
    at: int,
    key: HashedKey,
    value: Seq<u8>,
    extent: bool,
    region: Option<RegionState>,
) -> Written {
    match new_entry(key, value, extent, region, Seq::new(16, |i: int| 0u8)) {
        (Ok(s), r) => Written { table: t.update(at, s), region: r, outcome: Outcome::Placed(at) },
        (Err(msg), r) => Written { table: t, region: r, outcome: Outcome::Failed(msg) },
    }
}

/// The occupant can be displaced: it is not locked, and its value is in the
/// bucket.
pub open spec fn displaceable(s: Slot) -> bool {
    !layout::word_locked(s.lock) && !layout::word_extent(s.lock)
}

/// Eviction with `hand` on its way into slot `at` and `fuel` kicks left. The new
/// key is the one in hand when `hand_new`, and sits in slot `home` otherwise. The
/// result is the table, and the slot of the new key if every key found a place.
pub open spec fn displace(
    t: Seq<Slot>,
    at: int,
    hand: Slot,
    hand_new: bool,
    home: int,
    n: int,
    fuel: nat,
) -> (Seq<Slot>, Option<int>)
    decreases fuel,
{
    if fuel == 0 || !displaceable(t[at]) {
        (t, None)
    } else {
        let victim = layout::fresh_slot(t[at].hash, t[at].digest, t[at].body, false);
        let victim_new = !hand_new && at == home;
        let new_home = if hand_new {
            at
        } else {
            home
        };
        let swapped = t.update(at, hand);
        let alt = cuckoo::alternate_of(victim.hash, at, n);
        if layout::vacant(swapped[alt]) {
            (
                swapped.update(alt, victim),
                Some(
                    if victim_new {
                        alt
                    } else {
                        new_home
                    },
                ),
            )
        } else {
            displace(swapped, alt, victim, victim_new, new_home, n, (fuel - 1) as nat)
        }
    }
}

/// A placement by eviction from slot `at`. When the extent cannot be allocated,
/// the slot is left with the new key, in Extent mode, over the old body.
pub open spec fn kick_from(
    t: Seq<Slot>,
    at: int,
    key: HashedKey,
    value: Seq<u8>,
    extent: bool,
    region: Option<RegionState>,
    n: int,
) -> Written {
    if !displaceable(t[at]) {
        Written { table: t, region, outcome: Outcome::Full }
    } else {
        match new_entry(key, value, extent, region, t[at].body.subrange(16, 32)) {
            (Ok(s), r) => {
                let (u, home) = displace(t, at, s, true, at, n, MAX_KICK as nat);
                Written {
                    table: u,
                    region: r,
                    outcome: match home {
                        Some(i) => Outcome::Placed(i),
                        None => Outcome::Full,
                    },
                }
            },
            (Err(msg), r) => Written {
                table: t.update(
                    at,
                    layout::fresh_slot(key.hash, key.digest@, t[at].body, true),
                ),
                region: r,
                outcome: Outcome::Failed(msg),
            },
        }
    }
}

/// A write of a key: into a candidate slot that is vacant and unlocked, else by
/// eviction from the first candidate slot.
pub open spec fn write_of(
    t: Seq<Slot>,
    key: HashedKey,
    value: Seq<u8>,
    extent: bool,
    region: Option<RegionState>,
    n: int,
) -> Written {
    let (a, b) = (cuckoo::h1_of(key.hash, n), cuckoo::h2_of(key.hash, n));
    if cuckoo::claimable(t[a]) {
        place_in(t, a, key, value, extent, region)
    } else if cuckoo::claimable(t[b]) {
        place_in(t, b, key, value, extent, region)
    } else {
        kick_from(t, a, key, value, extent, region, n)
    }
}

/// The result of a write as a value.
pub open spec fn write_outcome(r: Result<WriteResult, RdmaError>, o: Outcome) -> bool {
    match r {
        Ok(WriteResult::Inserted { bucket_idx }) => o == Outcome::Placed(bucket_idx as int),
        Ok(WriteResult::TableFull) => o is Full,
        Err(e) => o matches Outcome::Failed(msg) && e@ == ErrorView::Internal(msg),
    }
}

/// An extent for the value can be allocated without leaving the region.
pub open spec fn region_ready(region: RegionState, value: Seq<u8>) -> bool {
    &&& value.len() + 39 <= u64::MAX
    &&& extent::fit_in_bounds(region, value)
}

/// The candidate slots of every key lie in a slice of `len` buckets.
pub open spec fn slots_in_range(n: int, len: int) -> bool {
    cuckoo::power_of_two(n) && n <= len && 2 <= len
}

proof fn lemma_in_range(hash: u64, n: int, len: int)
    requires
        slots_in_range(n, len),
    ensures
        0 <= cuckoo::h1_of(hash, n) < len,
        0 <= cuckoo::h2_of(hash, n) < len,
{
    cuckoo::lemma_power_of_two(n);
    if n == 1 {
        assert(hash as int % 1 == 0);
        assert((hash as int / 0x1_0000_0000) % 1 == 0);
    } else {
        cuckoo::lemma_candidates(hash, n);
    }
}

// ---------------------------------------------------------------------------
// Public types
// ---------------------------------------------------------------------------
/// Client-side write path: state machine for one-sided Cuckoo insertion.
pub struct ClientWriter;

/// Outcome of a write operation.
#[derive(Debug, Clone, Copy, PartialEq, Eq, Structural)]
pub enum WriteResult {
    /// The key-value pair was inserted successfully at the given bucket index.
    Inserted {
        /// The index of the bucket where the key was placed.
        bucket_idx: usize,
    },
    /// The table is full: the kick chain exhausted `MAX_KICK` without finding
    /// an empty slot.
    TableFull,
}

// ---------------------------------------------------------------------------
// ClientWriter
// ---------------------------------------------------------------------------
impl ClientWriter {
    /// The 32-byte body that holds an inline value.
    pub(crate) fn inline_body(value: &[u8]) -> (body: [u8; 32])
        ensures
            body@ == cuckoo::packed(value@, false),
    {
        let mut body: [u8; 32] = [0u8; 32];
        let len: usize = if value.len() < 32 {
            value.len()
        } else {
            32
        };
        let mut i: usize = 0;
        while i < len
            invariant
                i <= len <= 32,
                len <= value@.len(),
                forall|j: int| 0 <= j < i ==> body@[j] == value@[j],
                forall|j: int| i <= j < 32 ==> body@[j] == 0,
            decreases len - i,
        {
            body[i] = value[i];
            i = i + 1;
        }
        assert(body@ =~= cuckoo::packed(value@, false));
        body
    }

    /// The bucket to write for a key: the value inline, or the reference of an
    /// extent that is allocated for it over the body of `base`.
    fn build_entry(
        key: &HashedKey,
        value: &[u8],
        mode: BucketMode,
        large_objects: Option<&mut LargeObjectRegion>,
        base: HashBucket,
    ) -> (r: Result<HashBucket, RdmaError>)
        requires
            mode == BucketMode::Extent && large_objects is Some ==> old(large_objects->0).wf()
                && region_ready(old(large_objects->0)@, value@),
        ensures
            ({
                let before = if large_objects is Some {
                    Some(old(large_objects->0)@)
                } else {
                    None
                };
                let (s, after) = new_entry(
                    *key,
                    value@,
                    mode == BucketMode::Extent,
                    before,
                    base.body@.subrange(16, 32),
                );
                &&& match r {
                    Ok(b) => s == Ok::<Slot, Seq<char>>(b@),
                    Err(e) => s matches Err(msg) && e@ == ErrorView::Internal(msg),
                }
                &&& large_objects is Some ==> after == Some(final(large_objects->0)@) && (old(
                    large_objects->0,
                ).wf() ==> final(large_objects->0).wf()) && final(large_objects->0).size == old(
                    large_objects->0,
                ).size
            }),
    {
        let mut b: HashBucket = base;
        b.key_hash = key.hash;
        b.key_or_digest = key.digest;
        b.lock_version = layout::make_lock_word(0, 0, mode, false, false);
        match mode {
            BucketMode::Inline => {
                b.body = Self::inline_body(value);
                Ok(b)
            },
            BucketMode::Extent => match large_objects {
                Some(region) => match region.allocate(value) {
                    Some(offset) => {
                        b.set_extent_ref(offset, value.len() as u64);
                        Ok(b)
                    },
                    None => Err(RdmaError::Internal("extent allocation failed".to_owned())),
                },
                None => Err(
                    RdmaError::Internal("Extent mode requires a LargeObjectRegion".to_owned()),
                ),
            },
        }
    }

    /// Whether the bucket is vacant and unlocked.
    pub(crate) fn is_claimable(bucket: &HashBucket) -> (b: bool)
        ensures
            b == cuckoo::claimable(bucket@),
    {
        !bucket.is_locked() && (bucket.is_empty() || bucket.is_tombstone())
    }

    /// Insert a key-value pair using the distributed Cuckoo kick chain.
    ///
    /// # Arguments
    ///
    /// * `key`: the hashed key (must have a non-zero hash).
    /// * `value`: data to store. Must fit in 32 B for [`BucketMode::Inline`].
    /// * `mode`: whether to store Inline (at most 32 B in the bucket body) or
    ///   Extent (allocated from [`LargeObjectRegion`]).
    /// * `buckets`: mutable slice of the hash table.
    /// * `large_objects`: the extent region. Required when `mode` is Extent.
    /// * `bucket_count`: total number of buckets (must be a power of 2).
    ///
    /// # Errors
    ///
    /// Returns [`RdmaError::Internal`] when an extent allocation fails or
    /// when Extent mode is used without a [`LargeObjectRegion`].
    pub fn insert(
        key: &HashedKey,
        value: &[u8],
        mode: BucketMode,
        buckets: &mut [HashBucket],
        large_objects: Option<&mut LargeObjectRegion>,
        bucket_count: u64,
    ) -> (r: Result<WriteResult, RdmaError>)
        requires
            slots_in_range(bucket_count as int, old(buckets)@.len() as int),
            mode == BucketMode::Extent && large_objects is Some ==> old(large_objects->0).wf()
                && region_ready(old(large_objects->0)@, value@),
        ensures
            ({
                let before = if large_objects is Some {
                    Some(old(large_objects->0)@)
                } else {
                    None
                };
                let w = write_of(
                    layout::slots(old(buckets)@),
                    *key,
                    value@,
                    mode == BucketMode::Extent,
                    before,
                    bucket_count as int,
                );
                &&& layout::slots(final(buckets)@) == w.table
                &&& final(buckets)@.len() == old(buckets)@.len()
                &&& write_outcome(r, w.outcome)
                &&& large_objects is Some ==> w.region == Some(final(large_objects->0)@) && (old(
                    large_objects->0,
                ).wf() ==> final(large_objects->0).wf()) && final(large_objects->0).size == old(
                    large_objects->0,
                ).size
            }),
    {
        let len: usize = buckets.len();
        proof {
            lemma_in_range(key.hash, bucket_count as int, buckets@.len() as int);
        }
        let h1: usize = cuckoo::primary_slot(key.hash, bucket_count) as usize;
        let h2: usize = cuckoo::secondary_slot(key.hash, bucket_count) as usize;
        // Try direct insert at h1, then at h2.
        if Self::is_claimable(&buckets[h1]) {
            return Self::place(key, value, mode, buckets, large_objects, h1);
        }
        if Self::is_claimable(&buckets[h2]) {
            return Self::place(key, value, mode, buckets, large_objects, h2);
        }
        // Both occupied: start kick chain from h1.

        Self::kick_chain(key, value, mode, buckets, large_objects, bucket_count, h1)
    }

    /// Insert into the vacant slot `idx`.
    fn place(
        key: &HashedKey,
        value: &[u8],
        mode: BucketMode,
        buckets: &mut [HashBucket],
        large_objects: Option<&mut LargeObjectRegion>,
        idx: usize,
    ) -> (r: Result<WriteResult, RdmaError>)
        requires
            idx < old(buckets)@.len(),
            mode == BucketMode::Extent && large_objects is Some ==> old(large_objects->0).wf()
                && region_ready(old(large_objects->0)@, value@),
        ensures
            ({
                let before = if large_objects is Some {
                    Some(old(large_objects->0)@)
                } else {
                    None
                };
                let w = place_in(
                    layout::slots(old(buckets)@),
                    idx as int,
                    *key,
                    value@,
                    mode == BucketMode::Extent,
                    before,
                );
                &&& layout::slots(final(buckets)@) == w.table
                &&& final(buckets)@.len() == old(buckets)@.len()
                &&& write_outcome(r, w.outcome)
                &&& large_objects is Some ==> w.region == Some(final(large_objects->0)@) && (old(
                    large_objects->0,
                ).wf() ==> final(large_objects->0).wf()) && final(large_objects->0).size == old(
                    large_objects->0,
                ).size
            }),
    {
        let base = HashBucket::zeroed();
        assert(base.body@.subrange(16, 32) =~= Seq::new(16, |i: int| 0u8));
        match Self::build_entry(key, value, mode, large_objects, base) {
            Ok(b) => {
                buckets[idx] = b;
                assert(layout::slots(buckets@) =~= layout::slots(old(buckets)@).update(
                    idx as int,
                    b@,
                ));
                Ok(WriteResult::Inserted { bucket_idx: idx })
            },
            Err(e) => Err(e),
        }
    }

    /// Kick-chain insertion: iteratively displace keys until an empty slot
    /// is found or `MAX_KICK` is exhausted.
    ///
    /// 1. Write the incoming key at `start_idx`, displacing its occupant.
    /// 2. Compute the displaced occupant's alternate bucket.
    /// 3. If the alternate is empty/tombstone, write the occupant there. Done.
    /// 4. Otherwise, the alternate's occupant becomes the next victim. Repeat.
    ///
    /// An occupant that is locked, or whose value is in an extent, is not
    /// displaced: the chain ends with `TableFull`.
    fn kick_chain(
        key: &HashedKey,
        value: &[u8],
        mode: BucketMode,
        buckets: &mut [HashBucket],
        large_objects: Option<&mut LargeObjectRegion>,
        bucket_count: u64,
        start_idx: usize,
    ) -> (r: Result<WriteResult, RdmaError>)
        requires
            slots_in_range(bucket_count as int, old(buckets)@.len() as int),
            start_idx < old(buckets)@.len(),
            mode == BucketMode::Extent && large_objects is Some ==> old(large_objects->0).wf()
                && region_ready(old(large_objects->0)@, value@),
        ensures
            ({
                let before = if large_objects is Some {
                    Some(old(large_objects->0)@)
                } else {
                    None
                };
                let w = kick_from(
                    layout::slots(old(buckets)@),
                    start_idx as int,
                    *key,
                    value@,
                    mode == BucketMode::Extent,
                    before,
                    bucket_count as int,
                );
                &&& layout::slots(final(buckets)@) == w.table
                &&& final(buckets)@.len() == old(buckets)@.len()
                &&& write_outcome(r, w.outcome)
                &&& large_objects is Some ==> w.region == Some(final(large_objects->0)@) && (old(
                    large_objects->0,
                ).wf() ==> final(large_objects->0).wf()) && final(large_objects->0).size == old(
                    large_objects->0,
                ).size
            }),
    {
        if !Self::is_displaceable(&buckets[start_idx]) {
            return Ok(WriteResult::TableFull);
        }
        let base: HashBucket = buckets[start_idx];
        match Self::build_entry(key, value, mode, large_objects, base) {
            Ok(entry) => {
                match Self::displace_from(buckets, start_idx, entry, bucket_count) {
                    Some(bucket_idx) => Ok(WriteResult::Inserted { bucket_idx }),
                    None => Ok(WriteResult::TableFull),
                }
            },
            Err(e) => {
                // The slot already carries the new key when its extent fails.
                let mut b: HashBucket = base;
                b.key_hash = key.hash;
                b.key_or_digest = key.digest;
                b.lock_version = layout::make_lock_word(0, 0, mode, false, false);
                buckets[start_idx] = b;
                assert(layout::slots(buckets@) =~= layout::slots(old(buckets)@).update(
                    start_idx as int,
                    b@,
                ));
                Err(e)
            },
        }
    }

    /// Whether the occupant of a bucket can be displaced.
    fn is_displaceable(bucket: &HashBucket) -> (b: bool)
        ensures
            b == displaceable(bucket@),
    {
        !bucket.is_locked() && bucket.is_inline()
    }

    /// Moves occupants on, starting with that of `start_idx`, which `entry`
    /// replaces. Returns where the new entry ended up if every key found a place.
    fn displace_from(
        buckets: &mut [HashBucket],
        start_idx: usize,
        entry: HashBucket,
        bucket_count: u64,
    ) -> (r: Option<usize>)
        requires
            slots_in_range(bucket_count as int, old(buckets)@.len() as int),
            start_idx < old(buckets)@.len(),
        ensures
            ({
                let (u, home) = displace(
                    layout::slots(old(buckets)@),
                    start_idx as int,
                    entry@,
                    true,
                    start_idx as int,
                    bucket_count as int,
                    MAX_KICK as nat,
                );
                &&& layout::slots(final(buckets)@) == u
                &&& final(buckets)@.len() == old(buckets)@.len()
                &&& match r {
                    Some(i) => home == Some(i as int),
                    None => home is None,
                }
            }),
    {
        let len: usize = buckets.len();
        let mut hand: HashBucket = entry;
        let mut hand_new: bool = true;
        let mut home: usize = start_idx;
        let mut cur: usize = start_idx;
        let mut kicks: u32 = 0;
        while kicks < MAX_KICK
            invariant
                kicks <= MAX_KICK,
                len == buckets@.len() == old(buckets)@.len(),
                slots_in_range(bucket_count as int, len as int),
                cur < len,
                displace(
                    layout::slots(old(buckets)@),
                    start_idx as int,
                    entry@,
                    true,
                    start_idx as int,
                    bucket_count as int,
                    MAX_KICK as nat,
                ) == displace(
                    layout::slots(buckets@),
                    cur as int,
                    hand@,
                    hand_new,
                    home as int,
                    bucket_count as int,
                    (MAX_KICK - kicks) as nat,
                ),
            decreases MAX_KICK - kicks,
        {
            if !Self::is_displaceable(&buckets[cur]) {
                return None;
            }
            // 1. Snapshot the current occupant.

            let occupant: HashBucket = buckets[cur];
            let victim = HashBucket {
                lock_version: layout::make_lock_word(0, 0, BucketMode::Inline, false, false),
                ..occupant
            };
            let victim_new: bool = !hand_new && cur == home;
            // 2. Overwrite the current slot with the incoming key.
            let ghost t = layout::slots(buckets@);
            buckets[cur] = hand;
            assert(layout::slots(buckets@) =~= t.update(cur as int, hand@));
            if hand_new {
                home = cur;
            }
            // 3. Compute the displaced occupant's alternate bucket
            //    (the one it is NOT currently sitting in).

            proof {
                lemma_in_range(occupant.key_hash, bucket_count as int, len as int);
            }
            let occ_h1: usize = cuckoo::primary_slot(occupant.key_hash, bucket_count) as usize;
            let occ_h2: usize = cuckoo::secondary_slot(occupant.key_hash, bucket_count) as usize;
            let alt: usize = if cur == occ_h1 {
                occ_h2
            } else {
                occ_h1
            };
            // 4. If the alternate is empty or a tombstone, write the
            //    displaced occupant there and we are done.
            if buckets[alt].is_empty() || buckets[alt].is_tombstone() {
                let ghost u = layout::slots(buckets@);
                buckets[alt] = victim;
                assert(layout::slots(buckets@) =~= u.update(alt as int, victim@));
                return if victim_new {
                    Some(alt)
                } else {
                    Some(home)
                };
            }
            // 5. Cascade: the displaced occupant becomes the next key to
            //    place; the alternate index becomes the next one to clear.

            hand = victim;
            hand_new = victim_new;
            cur = alt;
            kicks = kicks + 1;
        }
        None
    }
}

} // verus!
