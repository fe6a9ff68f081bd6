//! Client read path: one-sided READ against the server hash table.
//!
//! # Read algorithm
//!
//! 1. Hash the key: h1, h2
//! 2. Read bucket at h1
//! 3. Check lock: if locked, skip (retry is the caller's responsibility)
//! 4. Check key_hash + digest match: if no, read bucket at h2
//! 5. If Inline mode: return value from body (1 RTT in distributed mode)
//! 6. If Extent mode: parse `{offset, length}` from body, read data from the
//!    large object region (2 RTT in distributed mode)
//! 7. Tombstone buckets are ignored (deleted keys are not found)
//!
//! [`ClientReader::get`] reads a table at hand;
//! [`RemoteGet`](crate::client::remote_read::RemoteGet) is the same lookup
//! as a state machine over remote operations.
//!
//! # Optimistic consistency
//!
//! In the distributed mode the caller wraps raw reads with the optimistic
//! read protocol from [`crate::engine::concurrency`] (version check
//! before/after).

use vstd::prelude::*;
use vstd::string::*;

use crate::engine::cuckoo;
use crate::engine::cuckoo_laws;
use crate::engine::extent;
use crate::engine::extent::{LargeObjectRegion, RegionState};
use crate::engine::layout;
use crate::engine::layout::{BucketMode, HashBucket, HashedKey, Slot};
use crate::error::{ErrorView, RdmaError};
use crate::text;

verus! {

// ---------------------------------------------------------------------------
// Model
// ---------------------------------------------------------------------------
/// A value that was read: its bytes, and whether it came from an extent.
pub type Found = (Seq<u8>, bool);

/// An unlocked slot that holds the key.
pub open spec fn hit(s: Slot, hash: u64, digest: Seq<u8>) -> bool {
    !layout::word_locked(s.lock) && layout::holds(s, hash, digest)
}

/// What reading a slot gives: the body in Inline mode; in Extent mode the payload
/// of the extent, if there is a region and the extent can be read.
pub open spec fn slot_value(s: Slot, region: Option<RegionState>, hash: u64, digest: Seq<u8>) -> Option<
    Found,
> {
    if !hit(s, hash, digest) {
        None
    } else if !layout::word_extent(s.lock) {
        Some((s.body, false))
    } else {
        match region {
            None => None,
            Some(r) => match extent::extent_payload(
                r.buffer,
                layout::body_extent_ref(s.body).0 as int,
            ) {
                Some(data) => Some((data, true)),
                None => None,
            },
        }
    }
}

/// The message about a number of buckets that is not a power of two.
pub open spec fn not_power_of_two(n: u64) -> Seq<char> {
    "bucket_count must be a power of 2, got "@ + text::decimal(n as nat)
}

/// The message about a candidate slot outside the table.
pub open spec fn out_of_bounds(h1: int, h2: int, len: int) -> Seq<char> {
    "computed bucket index out of bounds: h1="@ + text::decimal(h1 as nat) + " h2="@
        + text::decimal(h2 as nat) + " len="@ + text::decimal(len as nat)
}

/// The error that a lookup of this key in a table of `n` buckets ends with before
/// it reads anything.
pub open spec fn early_error(hash: u64, n: u64) -> Option<ErrorView> {
    if hash == 0 {
        Some(ErrorView::InvalidKey)
    } else if !cuckoo::power_of_two(n as int) {
        Some(ErrorView::Internal(not_power_of_two(n)))
    } else {
        None
    }
}

/// The outcome of a lookup in the slots `t`, of which `n` form the table.
pub open spec fn get_of(
    t: Seq<Slot>,
    region: Option<RegionState>,
    hash: u64,
    digest: Seq<u8>,
    n: u64,
) -> Result<Option<Found>, ErrorView> {
    let (a, b) = (cuckoo::h1_of(hash, n as int), cuckoo::h2_of(hash, n as int));
    match early_error(hash, n) {
        Some(e) => Err(e),
        None => if a >= t.len() || b >= t.len() {
            Err(ErrorView::Internal(out_of_bounds(a, b, t.len() as int)))
        } else {
            match slot_value(t[a], region, hash, digest) {
                Some(found) => Ok(Some(found)),
                None => Ok(slot_value(t[b], region, hash, digest)),
            }
        },
    }
}

// ---------------------------------------------------------------------------
// Public types
// ---------------------------------------------------------------------------
/// Result of a successful client read operation.
#[derive(Debug, PartialEq, Eq)]
pub struct ReadResult {
    /// The value read from the bucket (Inline body or Extent region data).
    pub value: Vec<u8>,
    /// Whether the bucket was Inline or Extent.
    pub mode: BucketMode,
}

impl View for ReadResult {
    type V = Found;

    open spec fn view(&self) -> Found {
        (self.value@, self.mode == BucketMode::Extent)
    }
}

impl Clone for ReadResult {
    fn clone(&self) -> (r: Self)
        ensures
            r@ == self@,
    {
        ReadResult { value: vstd::slice::slice_to_vec(&self.value), mode: self.mode }
    }
}

/// The outcome of a lookup as a value.
pub open spec fn outcome(r: Result<Option<ReadResult>, RdmaError>) -> Result<
    Option<Found>,
    ErrorView,
> {
    match r {
        Ok(Some(found)) => Ok(Some(found@)),
        Ok(None) => Ok(None),
        Err(e) => Err(e@),
    }
}

/// Stateless client read path: one-sided READ against the server hash table.
pub struct ClientReader;

impl ClientReader {
    /// The error of a lookup that cannot begin.
    pub fn check_key(hash: u64, bucket_count: u64) -> (r: Result<(), RdmaError>)
        ensures
            match r {
                Ok(_) => early_error(hash, bucket_count) is None,
                Err(e) => early_error(hash, bucket_count) == Some(e@),
            },
    {
        // Zero is reserved for "empty".
        if hash == 0 {
            return Err(RdmaError::InvalidKey);
        }
        if !cuckoo::is_power_of_two(bucket_count) {
            let mut msg: String = "bucket_count must be a power of 2, got ".to_owned();
            text::append_decimal(&mut msg, bucket_count);
            return Err(RdmaError::Internal(msg));
        }
        Ok(())
    }

    /// Read a key from the hash table.
    ///
    /// # Parameters
    ///
    /// - `key`: the hashed key to look up (hash + 16-byte digest).
    /// - `buckets`: a slice of the server's hash table.
    /// - `large_objects`: the server's Large Object Region, required for
    ///   Extent-mode reads.  `None` when the hash table contains only
    ///   Inline entries.
    /// - `bucket_count`: total number of buckets; **must be a power of 2**.
    ///
    /// # Returns
    ///
    /// - `Ok(Some(ReadResult))`: key found, value returned.
    /// - `Ok(None)`: key not found (both h1 and h2 missed, or locked).
    /// - `Err(RdmaError)`: the key hashes to zero, the bucket count is not a power
    ///   of two, or a candidate slot lies outside `buckets`.
    pub fn get(
        key: &HashedKey,
        buckets: &[HashBucket],
        large_objects: Option<&LargeObjectRegion>,
        bucket_count: u64,
    ) -> (r: Result<Option<ReadResult>, RdmaError>)
        ensures
            outcome(r) == get_of(
                layout::slots(buckets@),
                region_view(large_objects),
                key.hash,
                key.digest@,
                bucket_count,
            ),
    {
        match Self::check_key(key.hash, bucket_count) {
            Ok(_) => (),
            Err(e) => return Err(e),
        }
        let h1: u64 = cuckoo::primary_slot(key.hash, bucket_count);
        let h2: u64 = cuckoo::secondary_slot(key.hash, bucket_count);
        let len: u64 = buckets.len() as u64;
        // Guard: ensure computed indices are within bounds.
        if h1 >= len || h2 >= len {
            let mut msg: String = "computed bucket index out of bounds: h1=".to_owned();
            text::append_decimal(&mut msg, h1);
            msg.append(" h2=");
            text::append_decimal(&mut msg, h2);
            msg.append(" len=");
            text::append_decimal(&mut msg, len);
            return Err(RdmaError::Internal(msg));
        }
        // Phase 1: Read bucket at h1.

        if let Some(found) = Self::try_read_bucket(key, buckets, large_objects, h1 as usize) {
            return Ok(Some(found));
        }
        // Phase 2: Probe h2 if h1 didn't have the key.

        Ok(Self::try_read_bucket(key, buckets, large_objects, h2 as usize))
    }

    /// Try to read from a specific bucket index.
    ///
    /// Returns `None` if the bucket is locked, empty, a tombstone, or
    /// does not match the target key.  Returns `None` also if the bucket
    /// is in Extent mode but no `LargeObjectRegion` is provided, or the
    /// extent read fails.
    fn try_read_bucket(
        key: &HashedKey,
        buckets: &[HashBucket],
        large_objects: Option<&LargeObjectRegion>,
        idx: usize,
    ) -> (r: Option<ReadResult>)
        requires
            idx < buckets@.len(),
        ensures
            match r {
                Some(found) => slot_value(
                    buckets@[idx as int]@,
                    region_view(large_objects),
                    key.hash,
                    key.digest@,
                ) == Some(found@),
                None => slot_value(
                    buckets@[idx as int]@,
                    region_view(large_objects),
                    key.hash,
                    key.digest@,
                ) is None,
            },
    {
        let bucket: HashBucket = buckets[idx];
        // Locked bucket: caller should retry after the lock is released.
        if bucket.is_locked() {
            return None;
        }
        // Tombstone: the key was deleted.

        if bucket.is_tombstone() {
            return None;
        }
        if !bucket.matches_key(key.hash, &key.digest) {
            return None;
        }
        if bucket.is_inline() {
            let value: Vec<u8> = vstd::slice::slice_to_vec(bucket.inline_value());
            return Some(ReadResult { value, mode: BucketMode::Inline });
        }
        // Extent mode: the body contains (offset, length).

        let (offset, _length): (u64, u64) = bucket.extent_ref();
        match large_objects {
            Some(region) => match region.read(offset) {
                Some(value) => Some(ReadResult { value, mode: BucketMode::Extent }),
                None => None,
            },
            None => None,
        }
    }
}

/// The state of a region, if there is one.
pub open spec fn region_view(region: Option<&LargeObjectRegion>) -> Option<RegionState> {
    match region {
        Some(r) => Some(r@),
        None => None,
    }
}


// ---------------------------------------------------------------------------
// Laws
// ---------------------------------------------------------------------------
/// A read of a valid table finds the key in whichever slot holds it. An unlocked inline
/// entry gives its body, an unlocked extent entry the payload of its extent where it can
/// be read; a locked entry, an extent that cannot be read and a key that no slot holds
/// give nothing. None of these is an error.
pub proof fn law_read_finds_the_entry(
    t: Seq<Slot>,
    region: Option<RegionState>,
    hash: u64,
    digest: Seq<u8>,
    at: int,
)
    requires
        cuckoo_laws::valid(t),
        cuckoo::power_of_two(t.len() as int),
        t.len() <= u64::MAX,
        hash != 0,
    ensures
        ({
            let r = get_of(t, region, hash, digest, t.len() as u64);
            let off = layout::body_extent_ref(t[at].body).0 as int;
            let readable = region is Some && extent::extent_payload(region->0.buffer, off) is Some;
            &&& r is Ok
            &&& 0 <= at < t.len() && layout::holds(t[at], hash, digest) ==> {
                &&& layout::word_locked(t[at].lock) ==> r->Ok_0 is None
                &&& !layout::word_locked(t[at].lock) && !layout::word_extent(t[at].lock)
                    ==> r->Ok_0 == Some((t[at].body, false))
                &&& !layout::word_locked(t[at].lock) && layout::word_extent(t[at].lock) ==> r->Ok_0
                    == if readable {
                    Some((extent::extent_payload(region->0.buffer, off)->0, true))
                } else {
                    None
                }
            }
            &&& (forall|i: int|
                0 <= i < t.len() ==> !layout::holds(#[trigger] t[i], hash, digest)) ==> r->Ok_0 is None
        }),
{
    let n = t.len() as int;
    cuckoo_laws::law_two_probes(t, (hash, digest));
    cuckoo::lemma_candidates(hash, n);
    let (a, b) = (cuckoo::h1_of(hash, n), cuckoo::h2_of(hash, n));
    if a != b && layout::holds(t[a], hash, digest) && layout::holds(t[b], hash, digest) {
        assert(cuckoo_laws::key_of(t[a]) == cuckoo_laws::key_of(t[b]));
    }
}

/// A read without a hash is an invalid key, and a number of buckets that is not a power
/// of two is an internal error, whatever the table holds; nothing else is refused before
/// the table is read.
pub proof fn law_refused_reads(hash: u64, n: u64)
    ensures
        hash == 0 ==> early_error(hash, n) == Some(ErrorView::InvalidKey),
        hash != 0 && !cuckoo::power_of_two(n as int) ==> early_error(hash, n) matches Some(
            ErrorView::Internal(_),
        ),
        hash != 0 && cuckoo::power_of_two(n as int) ==> early_error(hash, n) is None,
{
}

/// A read whose key has a candidate slot outside the slice is refused with both slots and
/// the length, and one whose candidate slots both lie inside is not refused.
pub proof fn law_slots_outside_the_table(
    t: Seq<Slot>,
    region: Option<RegionState>,
    hash: u64,
    digest: Seq<u8>,
    n: u64,
)
    requires
        hash != 0,
        cuckoo::power_of_two(n as int),
    ensures
        ({
            let (a, b) = (cuckoo::h1_of(hash, n as int), cuckoo::h2_of(hash, n as int));
            let r = get_of(t, region, hash, digest, n);
            &&& r is Ok <==> a < t.len() && b < t.len()
            &&& r matches Err(e) ==> e == ErrorView::Internal(
                "computed bucket index out of bounds: h1="@ + text::decimal(a as nat) + " h2="@
                    + text::decimal(b as nat) + " len="@ + text::decimal(t.len()),
            )
        }),
{
}

} // verus!
