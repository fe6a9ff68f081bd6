//! Lock-free concurrency: CAS lock + lease + version-based optimistic reads.
//!
//! # Two-phase lock protocol
//!
//! **Phase 1 (acquire):**
//! 1. Client reads current `lock_version` from bucket
//! 2. If locked AND not expired: retry
//! 3. Construct `new_lock_version`: version | (now_ms << 8) | mode_bit | LOCKED_BIT
//! 4. CAS(addr, old_lock_version, new_lock_version)
//! 5. If CAS succeeds: hold lock; else: retry
//!
//! **Phase 2 (release):**
//! 1. Write back: (version+1) | cleared_lease | UNLOCKED | mode_bit
//! 2. Version monotonically increments
//!
//! [`acquire_step`] is the decision of phase 1 on a lock word that was read,
//! whoever performs the CAS; [`try_acquire_lock`] runs it on a bucket at hand.

use vstd::prelude::*;

use crate::clock;
use crate::engine::layout;
use crate::engine::layout::{BucketMode, ExtentHeaderV2, HashBucket, LEASE_TIMEOUT_MS};

verus! {

// ---------------------------------------------------------------------------
// Time utilities
// ---------------------------------------------------------------------------
/// The low 32 bits of a number of milliseconds; 0 where there is none.
pub open spec fn ms_of(millis: Option<u128>) -> int {
    match millis {
        Some(m) => m as int % 0x1_0000_0000,
        None => 0,
    }
}

/// The low 32 bits of a number of milliseconds; 0 where there is none, because
/// the clock stands before the Unix epoch.
pub fn wrapped_ms(millis: Option<u128>) -> (ms: u32)
    ensures
        ms == ms_of(millis),
{
    match millis {
        Some(m) => (m % 0x1_0000_0000) as u32,
        None => 0,
    }
}

/// Current time in milliseconds as a wrapping `u32` (for lease timestamps): the
/// [`wrapped_ms`] of the time since the Unix epoch. Nothing is stated of the result:
/// it depends on the clock.
pub fn now_ms() -> (now: u32) {
    wrapped_ms(clock::epoch_millis())
}

/// The age of a lease: both timestamps are cut to 24 bits, and the difference
/// is taken modulo `2^32`.
pub open spec fn lease_age(old_ts: u32, now: u32) -> int {
    (now as int % 0x100_0000 - old_ts as int % 0x100_0000) % 0x1_0000_0000
}

/// Returns `true` when `old_ts` has expired relative to `now`.
///
/// Lease timestamps are 24-bit values stored in bits [31:8] of the lock
/// word.  Both arguments are masked to 24 bits before comparison so that
/// a full 32-bit `now_ms()` value is compared correctly against a truncated
/// 24-bit lease timestamp.  A clock that has wrapped past the 24-bit boundary
/// since the lease was taken counts as expiry.
pub fn is_lease_expired(old_ts: u32, now: u32, timeout_ms: u32) -> (b: bool)
    ensures
        b == (lease_age(old_ts, now) > timeout_ms),
{
    assert(old_ts & 0xFF_FFFF == old_ts % 0x100_0000) by (bit_vector);
    assert(now & 0xFF_FFFF == now % 0x100_0000) by (bit_vector);
    let old_24: u32 = old_ts & 0xFF_FFFF;
    let now_24: u32 = now & 0xFF_FFFF;
    now_24.wrapping_sub(old_24) > timeout_ms
}

// ---------------------------------------------------------------------------
// AtomicBucket
// ---------------------------------------------------------------------------
/// Convenience wrapper that provides CAS access to a `HashBucket`'s
/// `lock_version` field.
///
/// It wraps a bucket at hand.  In a distributed deployment the same operations
/// target remote RDMA memory.
pub struct AtomicBucket<'a> {
    pub bucket: &'a mut HashBucket,
}

impl<'a> AtomicBucket<'a> {
    /// Wrap a `HashBucket` reference for atomic access.
    pub fn new(bucket: &'a mut HashBucket) -> (r: Self)
        ensures
            *r.bucket == *old(bucket),
            *final(r.bucket) == *final(bucket),
    {
        AtomicBucket { bucket }
    }

    /// Load `lock_version`.
    pub fn load_lock(&self) -> (w: u64)
        ensures
            w == old(self.bucket).lock_version,
    {
        self.bucket.lock_version
    }

    /// Store `lock_version`.
    pub fn store_lock(&mut self, val: u64)
        ensures
            *final(self).bucket == (HashBucket { lock_version: val, ..*old(self).bucket }),
            *final(final(self).bucket) == *final(old(self).bucket),
    {
        self.bucket.lock_version = val;
    }

    /// CAS the `lock_version` field: if the current value equals `old_word`,
    /// replace it with `new_word`.
    ///
    /// Returns `Ok(previous_value)` on success, `Err(actual_value)` on failure.
    pub fn cas_lock(&mut self, old_word: u64, new_word: u64) -> (r: Result<u64, u64>)
        ensures
            *final(self).bucket == if old(self).bucket.lock_version == old_word {
                HashBucket { lock_version: new_word, ..*old(self).bucket }
            } else {
                *old(self).bucket
            },
            *final(final(self).bucket) == *final(old(self).bucket),
            r == if old(self).bucket.lock_version == old_word {
                Ok::<u64, u64>(old_word)
            } else {
                Err(old(self).bucket.lock_version)
            },
    {
        let actual: u64 = self.bucket.lock_version;
        if actual == old_word {
            self.bucket.lock_version = new_word;
            Ok(actual)
        } else {
            Err(actual)
        }
    }
}

// ---------------------------------------------------------------------------
// Lock acquire / release (two-phase protocol)
// ---------------------------------------------------------------------------
/// What phase 1 does with a lock word that was read: nothing while another
/// client holds an unexpired lock, else a CAS to the word that holds the lock.
#[derive(Debug, Clone, Copy, PartialEq, Eq, Structural)]
pub enum AcquireStep {
    /// Another client holds the (unexpired) lock.
    Blocked,
    /// CAS the lock word from what was read to this word.
    Cas { new_word: u64 },
}

/// The lock is held and its lease has not run out at time `now`.
pub open spec fn held(word: u64, now: u32, timeout_ms: u32) -> bool {
    layout::word_locked(word) && lease_age(layout::word_lease(word) as u32, now) <= timeout_ms
}

/// The word of a lock taken over `word` at time `stamp`: the version stays, the
/// lease is stamped, mode and locked bit are set, the tombstone is cleared.
pub open spec fn acquired_word(word: u64, stamp: u32, mode: BucketMode) -> u64 {
    layout::lock_word(
        layout::word_version(word),
        stamp as int % 0x100_0000,
        mode == BucketMode::Extent,
        false,
        true,
    ) as u64
}

/// The word that a release writes: the version goes up by one, modulo `2^32`.
pub open spec fn released_word(version: u32, mode: BucketMode) -> u64 {
    layout::lock_word(
        (version + 1) % 0x1_0000_0000,
        0,
        mode == BucketMode::Extent,
        false,
        false,
    ) as u64
}

/// The step of phase 1 on `word`, with the lease judged at time `check`, and a
/// new lease stamped with time `stamp`.
pub open spec fn acquire_step_of(word: u64, check: u32, stamp: u32, mode: BucketMode) -> AcquireStep {
    if held(word, check, LEASE_TIMEOUT_MS) {
        AcquireStep::Blocked
    } else {
        AcquireStep::Cas { new_word: acquired_word(word, stamp, mode) }
    }
}

/// Decides phase 1 on a lock word that was read: the lease is judged at time
/// `check`, and a new lease is stamped with time `stamp`.
pub fn acquire_step(word: u64, check: u32, stamp: u32, mode: BucketMode) -> (step: AcquireStep)
    ensures
        step == acquire_step_of(word, check, stamp, mode),
{
    if layout::lock_word_locked(word) && !is_lease_expired(
        layout::lock_word_lease(word),
        check,
        LEASE_TIMEOUT_MS,
    ) {
        return AcquireStep::Blocked;
    }
    let version: u32 = layout::lock_word_version(word);
    AcquireStep::Cas { new_word: layout::make_lock_word(version, stamp, mode, false, true) }
}

/// Attempt to acquire the CAS lock on a bucket (Phase 1).
///
/// # Returns
///
/// - `Ok(old_lock_version)`: lock acquired; the old value is returned for
///   callers that need the previous version number.
/// - `Err(LockError::Locked)`: another client holds the (unexpired) lock.
///
/// # Force takeover
///
/// If the bucket is locked but the lease has expired, this function treats
/// the bucket as unlocked and proceeds with CAS.  The stale holder's lease
/// is overwritten.
pub fn try_acquire_lock(bucket: &mut AtomicBucket, mode: BucketMode) -> (r: Result<u64, LockError>)
    ensures
        *final(final(bucket).bucket) == *final(old(bucket).bucket),
        exists|check: u32, stamp: u32|
            match #[trigger] acquire_step_of(old(bucket).bucket.lock_version, check, stamp, mode) {
                AcquireStep::Blocked => r == Err::<u64, LockError>(LockError::Locked)
                    && *final(bucket).bucket == *old(bucket).bucket,
                AcquireStep::Cas { new_word } => r == Ok::<u64, LockError>(
                    old(bucket).bucket.lock_version,
                ) && *final(bucket).bucket == (HashBucket {
                    lock_version: new_word,
                    ..*old(bucket).bucket
                }),
            },
        !layout::word_locked(old(bucket).bucket.lock_version) ==> r is Ok,
{
    let old_lv: u64 = bucket.load_lock();
    let check: u32 = now_ms();
    let stamp: u32 = now_ms();
    match acquire_step(old_lv, check, stamp, mode) {
        AcquireStep::Blocked => Err(LockError::Locked),
        AcquireStep::Cas { new_word } => match bucket.cas_lock(old_lv, new_word) {
            Ok(prev) => Ok(prev),
            Err(_) => Err(LockError::Locked),
        },
    }
}

/// Release the lock on a bucket (Phase 2).
///
/// Bumps `version` by 1 (wrapping), clears the lease timestamp and lock
/// bit, and preserves the mode bit.
pub fn release_lock(bucket: &mut AtomicBucket, mode: BucketMode, version: u32)
    ensures
        *final(bucket).bucket == (HashBucket {
            lock_version: released_word(version, mode),
            ..*old(bucket).bucket
        }),
        *final(final(bucket).bucket) == *final(old(bucket).bucket),
{
    let new_version: u32 = version.wrapping_add(1);
    bucket.store_lock(layout::make_lock_word(new_version, 0, mode, false, false));
}

// ---------------------------------------------------------------------------
// Optimistic read (version-based OCC)
// ---------------------------------------------------------------------------
/// Snapshot of a bucket read without holding a lock.
///
/// After reading data, the caller must call [`verify_read`] to check that
/// no concurrent writer modified the bucket during the read.
#[derive(Debug, Clone, Copy)]
pub struct ReadGuard {
    pub version: u32,
    pub key_hash: u64,
    pub key_or_digest: [u8; 16],
    pub body: [u8; 32],
    pub lock_version: u64,
}

/// Attempt an optimistic read of a bucket.
///
/// Returns `Ok(ReadGuard)` with the bucket's contents and version if the
/// bucket is not currently locked.  Returns `Err(LockError::Locked)` if
/// a writer holds the lock.
///
/// The caller must subsequently call [`verify_read`] to confirm that the
/// data was not modified concurrently.
pub fn optimistic_read(bucket: &HashBucket) -> (r: Result<ReadGuard, LockError>)
    ensures
        match r {
            Ok(guard) => {
                &&& !layout::word_locked(bucket.lock_version)
                &&& guard.version == layout::word_version(bucket.lock_version)
                &&& guard.key_hash == bucket.key_hash
                &&& guard.key_or_digest == bucket.key_or_digest
                &&& guard.body == bucket.body
                &&& guard.lock_version == bucket.lock_version
            },
            Err(e) => layout::word_locked(bucket.lock_version) && e == LockError::Locked,
        },
{
    if bucket.is_locked() {
        return Err(LockError::Locked);
    }
    Ok(
        ReadGuard {
            version: bucket.version(),
            key_hash: bucket.key_hash,
            key_or_digest: bucket.key_or_digest,
            body: bucket.body,
            lock_version: bucket.lock_version,
        },
    )
}

/// A read at `version` still stands when the lock word is `word`.
pub open spec fn read_stands(version: u32, word: u64) -> bool {
    !layout::word_locked(word) && layout::word_version(word) == version
}

/// Verify that the bucket's contents haven't changed since the optimistic read.
///
/// Returns `true` if the bucket is still unlocked and the version matches the
/// guard's recorded version.
pub fn verify_read(guard: &ReadGuard, bucket: &AtomicBucket) -> (b: bool)
    ensures
        b == read_stands(guard.version, old(bucket.bucket).lock_version),
{
    let current_lv: u64 = bucket.load_lock();
    !layout::lock_word_locked(current_lv) && layout::lock_word_version(current_lv) == guard.version
}

// ---------------------------------------------------------------------------
// Extent checksum verification
// ---------------------------------------------------------------------------
/// Verify payload integrity using the [`ExtentHeaderV2`] checksum.
///
/// Returns `true` if the checksum matches (and is non-zero, meaning the write
/// is complete). A zero checksum indicates a write in progress that should not
/// be consumed.
pub fn verify_extent_checksum(header: &ExtentHeaderV2, payload: &[u8]) -> (b: bool)
    ensures
        b == checksum_accepts(header.checksum, crate::hash::xxh64_of(payload@, 0)),
{
    let computed: u64 = crate::hash::xxh64(payload, 0);
    accepts_checksum(header.checksum, computed)
}

/// A stored checksum accepts a payload: it is not the write-in-progress zero,
/// and the payload hashes to it.
pub open spec fn checksum_accepts(stored: u64, computed: u64) -> bool {
    stored != 0 && computed == stored
}

/// Whether a stored checksum accepts a payload with the checksum `computed`.
pub fn accepts_checksum(stored: u64, computed: u64) -> (b: bool)
    ensures
        b == checksum_accepts(stored, computed),
{
    if stored == 0 {
        return false;  // write in progress
    }
    computed == stored
}

// ---------------------------------------------------------------------------
// Error type
// ---------------------------------------------------------------------------
/// Errors returned by lock acquisition and optimistic reads.
#[derive(Debug, Clone, Copy, PartialEq, Eq, Structural)]
pub enum LockError {
    /// Another client holds an unexpired lock on the bucket.
    Locked,
    /// The lease has expired (returned by higher-level callers; force
    /// takeover is handled internally by `try_acquire_lock`).
    Expired,
}

// ---------------------------------------------------------------------------
// Lease expiration & force takeover
// ---------------------------------------------------------------------------
/// Result of a force takeover attempt on an expired lock.
#[derive(Debug, PartialEq, Eq, Structural)]
pub enum TakeoverResult {
    /// Successfully took over the lock. Contains the new `lock_version`.
    Success { new_version: u64 },
    /// The lock is not expired: another client still holds it.
    NotExpired,
    /// The bucket was not locked at all.
    NotLocked,
}

/// The outcome of a takeover at time `now`, and the lock word afterwards.
pub open spec fn takeover_of(word: u64, now: u32, timeout_ms: u32) -> (TakeoverResult, u64) {
    let freed = layout::lock_word(
        (layout::word_version(word) + 1) % 0x1_0000_0000,
        0,
        layout::word_extent(word),
        false,
        false,
    ) as u64;
    if !layout::word_locked(word) {
        (TakeoverResult::NotLocked, word)
    } else if held(word, now, timeout_ms) {
        (TakeoverResult::NotExpired, word)
    } else {
        (TakeoverResult::Success { new_version: freed }, freed)
    }
}

/// Force-take over a lock that has exceeded its lease timeout.
///
/// The caller must verify bucket state after takeover:
/// - If the previous holder was mid-operation, the bucket may be in
///   an inconsistent state (e.g., during a kick chain).
/// - Caller should re-read the bucket and validate key_hash/digest.
///
/// # Returns
/// - `TakeoverResult::Success { new_version }` if takeover succeeded.
///   Caller should then repair the bucket (mark as tombstone if the
///   previous operation was a delete, or leave as-is for re-insert).
/// - `TakeoverResult::NotExpired` if the lock is still valid.
/// - `TakeoverResult::NotLocked` if the bucket was not locked.
pub fn force_takeover(bucket: &mut HashBucket, timeout_ms: u32) -> (r: TakeoverResult)
    ensures
        exists|now: u32|
            (r, final(bucket).lock_version) == #[trigger] takeover_of(
                old(bucket).lock_version,
                now,
                timeout_ms,
            ),
        *final(bucket) == (HashBucket {
            lock_version: final(bucket).lock_version,
            ..*old(bucket)
        }),
        !layout::word_locked(old(bucket).lock_version) ==> r == TakeoverResult::NotLocked,
{
    let now: u32 = now_ms();
    force_takeover_at(bucket, now, timeout_ms)
}

/// [`force_takeover`] at time `now`.
pub fn force_takeover_at(bucket: &mut HashBucket, now: u32, timeout_ms: u32) -> (r: TakeoverResult)
    ensures
        (r, final(bucket).lock_version) == takeover_of(old(bucket).lock_version, now, timeout_ms),
        *final(bucket) == (HashBucket {
            lock_version: final(bucket).lock_version,
            ..*old(bucket)
        }),
{
    if !bucket.is_locked() {
        return TakeoverResult::NotLocked;
    }
    let lease: u32 = bucket.lease_ts();
    if !is_lease_expired(lease, now, timeout_ms) {
        return TakeoverResult::NotExpired;
    }
    // Force takeover: unlock the bucket, keeping mode and bumping version.

    let new_version: u32 = bucket.version().wrapping_add(1);
    bucket.unlock_bucket(new_version);
    TakeoverResult::Success { new_version: bucket.lock_version }
}

/// Repair a bucket after force takeover.
///
/// After a crash, the bucket may be in an inconsistent state:
/// - Client was mid-write: bucket has partial data. Repair by clearing.
/// - Client was mid-delete: bucket should be tombstone. Set tombstone.
/// - Client was mid-kick: bucket displaced; re-insert may be needed.
///
/// This function conservatively clears the bucket so it can be reused.
pub fn repair_after_crash(bucket: &mut HashBucket)
    ensures
        final(bucket).lock_version == 0,
        final(bucket).key_hash == 0,
        final(bucket).key_or_digest@ == Seq::new(16, |i: int| 0u8),
        final(bucket).body@ == Seq::new(32, |i: int| 0u8),
{
    *bucket = HashBucket::zeroed();
}

// ---------------------------------------------------------------------------
// Laws
// ---------------------------------------------------------------------------
/// Acquiring and releasing a lock moves the version up by exactly one, modulo
/// `2^32`, whatever the clock says, and leaves the bucket unlocked, without
/// lease or tombstone and in the mode of the writer.
pub proof fn law_acquire_release(word: u64, stamp: u32, mode: BucketMode)
    ensures
        ({
            let taken = acquired_word(word, stamp, mode);
            let freed = released_word(layout::word_version(taken) as u32, mode);
            &&& layout::word_locked(taken)
            &&& layout::word_version(taken) == layout::word_version(word)
            &&& layout::word_lease(taken) == stamp as int % 0x100_0000
            &&& layout::word_extent(taken) == (mode == BucketMode::Extent)
            &&& !layout::word_tombstone(taken)
            &&& !layout::word_locked(freed)
            &&& !layout::word_tombstone(freed)
            &&& layout::word_lease(freed) == 0
            &&& layout::word_extent(freed) == (mode == BucketMode::Extent)
            &&& layout::word_version(freed) == (layout::word_version(word) + 1) % 0x1_0000_0000
        }),
{
    let taken = acquired_word(word, stamp, mode);
    layout::lemma_lock_word_fields(
        taken,
        layout::word_version(word),
        stamp as int % 0x100_0000,
        mode == BucketMode::Extent,
        false,
        true,
    );
    let version = layout::word_version(taken) as u32;
    layout::lemma_lock_word_fields(
        released_word(version, mode),
        (version + 1) % 0x1_0000_0000,
        0,
        mode == BucketMode::Extent,
        false,
        false,
    );
}

/// Mutual exclusion: whoever finds the word of a lock whose lease has not run
/// out is blocked.
pub proof fn law_held_lock_blocks(word: u64, stamp: u32, mode: BucketMode, check: u32, later: u32, other: BucketMode)
    requires
        lease_age(stamp, check) <= LEASE_TIMEOUT_MS,
    ensures
        acquire_step_of(acquired_word(word, stamp, mode), check, later, other)
            == AcquireStep::Blocked,
{
    law_acquire_release(word, stamp, mode);
}

/// A lock whose lease has run out blocks nobody.
pub proof fn law_expired_lock_yields(word: u64, stamp: u32, mode: BucketMode, check: u32, later: u32, other: BucketMode)
    requires
        lease_age(stamp, check) > LEASE_TIMEOUT_MS,
    ensures
        acquire_step_of(acquired_word(word, stamp, mode), check, later, other) is Cas,
{
    law_acquire_release(word, stamp, mode);
}

/// The version after `writes` acquire/release rounds.
pub open spec fn version_after(version: u32, writes: nat) -> int {
    (version + writes) % 0x1_0000_0000
}

/// An optimistic read is rejected while a writer holds the lock, and after any
/// number of completed writes that is not a multiple of `2^32`.
pub proof fn law_optimistic_read_detects_writers(version: u32, word: u64, writes: nat)
    requires
        layout::word_locked(word) || layout::word_version(word) == version_after(version, writes),
        writes % 0x1_0000_0000 != 0,
    ensures
        !read_stands(version, word),
{
}

/// An optimistic read stands as long as nobody writes.
pub proof fn law_undisturbed_read_stands(word: u64)
    requires
        !layout::word_locked(word),
    ensures
        read_stands(layout::word_version(word) as u32, word),
{
}

/// A successful takeover unlocks the bucket, keeps its mode, and makes every read
/// that was under way fail its check.
pub proof fn law_takeover(word: u64, now: u32, timeout_ms: u32)
    requires
        takeover_of(word, now, timeout_ms).0 is Success,
    ensures
        ({
            let freed = takeover_of(word, now, timeout_ms).1;
            &&& !layout::word_locked(freed)
            &&& layout::word_extent(freed) == layout::word_extent(word)
            &&& layout::word_version(freed) == (layout::word_version(word) + 1) % 0x1_0000_0000
            &&& !read_stands(layout::word_version(word) as u32, freed)
        }),
{
    let freed = takeover_of(word, now, timeout_ms).1;
    layout::lemma_lock_word_fields(
        freed,
        (layout::word_version(word) + 1) % 0x1_0000_0000,
        0,
        layout::word_extent(word),
        false,
        false,
    );
}

/// The age of a lease is the time that has passed since it was stamped, as long as the
/// 24-bit clock has not wrapped in between; afterwards it counts as very old.
pub proof fn law_lease_age(old_ts: u32, now: u32, timeout_ms: u32)
    requires
        timeout_ms < 0xFF00_0000,
    ensures
        ({
            let (a, b) = (old_ts as int % 0x100_0000, now as int % 0x100_0000);
            &&& a <= b ==> lease_age(old_ts, now) == b - a
            &&& a > b ==> lease_age(old_ts, now) > timeout_ms
        }),
{
}

/// Phase 1 on any word: it is blocked exactly while the word is locked and its lease is at
/// most 100 ms old, and takes the lock otherwise. The word it writes is locked, keeps the
/// version, carries the stamp as its lease and the mode of the writer.
pub proof fn law_acquire(word: u64, check: u32, stamp: u32, mode: BucketMode)
    ensures
        ({
            let step = acquire_step_of(word, check, stamp, mode);
            let age = lease_age(layout::word_lease(word) as u32, check);
            &&& layout::word_locked(word) && age <= 100 <==> step == AcquireStep::Blocked
            &&& step matches AcquireStep::Cas { new_word } ==> {
                &&& layout::word_locked(new_word)
                &&& layout::word_version(new_word) == layout::word_version(word)
                &&& layout::word_lease(new_word) == stamp as int % 0x100_0000
                &&& layout::word_extent(new_word) == (mode == BucketMode::Extent)
                &&& !layout::word_tombstone(new_word)
            }
        }),
{
    assert(LEASE_TIMEOUT_MS == 100);
    law_acquire_release(word, stamp, mode);
}

/// A release, whatever the word before: the version goes up by one, modulo `2^32`, and the
/// word is unlocked, without lease or tombstone and in the mode of the writer.
pub proof fn law_release(version: u32, mode: BucketMode)
    ensures
        ({
            let w = released_word(version, mode);
            &&& layout::word_version(w) == (version as int + 1) % 0x1_0000_0000
            &&& !layout::word_locked(w)
            &&& !layout::word_tombstone(w)
            &&& layout::word_lease(w) == 0
            &&& layout::word_extent(w) == (mode == BucketMode::Extent)
        }),
{
    layout::lemma_lock_word_fields(
        released_word(version, mode),
        (version + 1) % 0x1_0000_0000,
        0,
        mode == BucketMode::Extent,
        false,
        false,
    );
}

/// A takeover is decided by the lock and its lease alone: nothing happens to an unlocked
/// bucket, nor to one whose lease is no older than the timeout; every other one is taken
/// over, and the word that is reported is the one that is written.
pub proof fn law_takeover_decision(word: u64, now: u32, timeout_ms: u32)
    ensures
        ({
            let (r, after) = takeover_of(word, now, timeout_ms);
            let age = lease_age(layout::word_lease(word) as u32, now);
            &&& r == TakeoverResult::NotLocked <==> !layout::word_locked(word)
            &&& r == TakeoverResult::NotExpired <==> layout::word_locked(word) && age <= timeout_ms
            &&& r is Success <==> layout::word_locked(word) && age > timeout_ms
            &&& r !is Success ==> after == word
            &&& r matches TakeoverResult::Success { new_version } ==> new_version == after
        }),
{
}

/// An optimistic read stands exactly when the bucket is unlocked and its version is the
/// one that was read.
pub proof fn law_read_stands(version: u32, word: u64)
    ensures
        read_stands(version, word) <==> word % 2 == 0 && word / 0x1_0000_0000 == version,
{
}

/// A payload is accepted exactly under its own checksum, and never under zero, the
/// checksum of a write in progress.
pub proof fn law_checksum(stored: u64, computed: u64)
    ensures
        !checksum_accepts(0, computed),
        stored != 0 ==> checksum_accepts(stored, stored),
        stored != computed ==> !checksum_accepts(stored, computed),
{
}

/// The wrapped time is congruent to the time modulo `2^32` and fits in 32 bits; without a
/// time it is zero.
pub proof fn law_wrapped_time(millis: u128)
    ensures
        0 <= ms_of(Some(millis)) < 0x1_0000_0000,
        (millis as int - ms_of(Some(millis))) % 0x1_0000_0000 == 0,
        ms_of(None) == 0,
{
}

} // verus!
