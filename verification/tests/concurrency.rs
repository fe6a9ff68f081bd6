//! Bucket locks, optimistic reads and lease takeover.

use rdmas::engine::concurrency::{
    force_takeover, is_lease_expired, now_ms, optimistic_read, release_lock, repair_after_crash,
    try_acquire_lock, verify_read, AtomicBucket, LockError, TakeoverResult,
};
use rdmas::engine::layout::{BucketMode, HashBucket, LEASE_TIMEOUT_MS};

/// Create a zero-initialized bucket for testing.
fn zero_bucket() -> HashBucket {
    HashBucket {
        lock_version: 0,
        key_hash: 0,
        key_or_digest: [0u8; 16],
        body: [0u8; 32],
    }
}

// -----------------------------------------------------------------------
// Basic acquire -> release -> version increment
// -----------------------------------------------------------------------

#[test]
fn test_acquire_release_basic() {
    let mut b = zero_bucket();
    let mut ab = AtomicBucket::new(&mut b);

    // Acquire
    let old = try_acquire_lock(&mut ab, BucketMode::Inline).expect("acquire should succeed");
    assert_eq!(old, 0);
    assert!(ab.bucket.is_locked());
    assert!(ab.bucket.is_inline());

    // Release with version bump
    let version = (old >> 32) as u32;
    release_lock(&mut ab, BucketMode::Inline, version);

    assert!(!ab.bucket.is_locked());
    assert_eq!(ab.bucket.version(), 1);
    assert!(ab.bucket.is_inline());
}

#[test]
fn test_version_monotonic() {
    let mut b = zero_bucket();
    let mut ab = AtomicBucket::new(&mut b);

    for i in 0..5 {
        let old = try_acquire_lock(&mut ab, BucketMode::Inline).unwrap();
        let version = (old >> 32) as u32;
        assert_eq!(version, i, "version should be {i} on iteration {i}");
        release_lock(&mut ab, BucketMode::Inline, version);
        assert_eq!(ab.bucket.version(), i + 1);
    }
}

#[test]
fn test_acquire_release_extent() {
    let mut b = zero_bucket();
    let mut ab = AtomicBucket::new(&mut b);

    try_acquire_lock(&mut ab, BucketMode::Extent).unwrap();
    assert!(ab.bucket.is_locked());
    assert!(ab.bucket.is_extent());

    release_lock(&mut ab, BucketMode::Extent, 0);
    assert!(!ab.bucket.is_locked());
    assert!(ab.bucket.is_extent());
    assert_eq!(ab.bucket.version(), 1);
}

// -----------------------------------------------------------------------
// Lock conflict detection
// -----------------------------------------------------------------------

#[test]
fn test_lock_conflict_while_held() {
    let mut b = zero_bucket();
    let mut ab = AtomicBucket::new(&mut b);

    // First acquire succeeds.
    let old = try_acquire_lock(&mut ab, BucketMode::Inline).unwrap();
    assert!(ab.bucket.is_locked());

    // Second acquire on the same (still-locked) bucket must fail.
    let result = try_acquire_lock(&mut ab, BucketMode::Inline);
    assert!(matches!(result, Err(LockError::Locked)));

    // Release; second acquire should now succeed.
    let version = (old >> 32) as u32;
    release_lock(&mut ab, BucketMode::Inline, version);

    let result2 = try_acquire_lock(&mut ab, BucketMode::Inline);
    assert!(result2.is_ok());
}

// -----------------------------------------------------------------------
// Optimistic read -> verify pattern
// -----------------------------------------------------------------------

#[test]
fn test_optimistic_read_unlocked() {
    let mut b = zero_bucket();
    b.body[0..5].copy_from_slice(b"hello");

    let guard = optimistic_read(&b).expect("read should succeed on unlocked bucket");
    assert_eq!(guard.version, 0);
    assert_eq!(&guard.body[0..5], b"hello");

    let ab = AtomicBucket::new(&mut b);
    assert!(verify_read(&guard, &ab));
}

#[test]
fn test_optimistic_read_locked_fails() {
    let mut b = zero_bucket();
    b.lock_version = 0x01; // locked, Inline

    let result = optimistic_read(&b);
    assert!(matches!(result, Err(LockError::Locked)));
}

#[test]
fn test_optimistic_read_detects_concurrent_write() {
    let mut b = zero_bucket();
    let mut ab = AtomicBucket::new(&mut b);

    let guard = optimistic_read(&ab.bucket).expect("read should succeed");

    // Simulate a concurrent write: acquire, modify, release.
    let old = try_acquire_lock(&mut ab, BucketMode::Inline).unwrap();
    let version = (old >> 32) as u32;
    release_lock(&mut ab, BucketMode::Inline, version);

    // verify_read must detect the version change.
    assert!(!verify_read(&guard, &ab));
}

// -----------------------------------------------------------------------
// Lease expiration & force takeover
// -----------------------------------------------------------------------

#[test]
fn test_is_lease_expired_basic() {
    // now=200, old_ts=0, timeout=100 -> 200-0=200 > 100 -> expired
    assert!(is_lease_expired(0, 200, 100));
    // now=150, old_ts=100, timeout=100 -> 150-100=50 > 100 -> not expired
    assert!(!is_lease_expired(100, 150, 100));
    // Boundary: now=150, old_ts=50, timeout=100 -> 150-50=100 > 100 -> false (not expired)
    assert!(!is_lease_expired(50, 150, 100));
    // Just past boundary: now=151, old_ts=50, timeout=100 -> 151-50=101 > 100 -> expired
    assert!(is_lease_expired(50, 151, 100));
}

#[test]
fn test_is_lease_expired_wrapping() {
    // Lease timestamps are 24-bit (0 .. 0xFF_FFFF = 16_777_215).
    // When now wraps past the 24-bit boundary back to a small value
    // while old_ts is near the top of the range, wrapping_sub produces
    // a large positive value, correctly signalling expiry.
    // old_ts = 0xFF_FFFF (near max 24-bit), now = 10, timeout = 50
    // 10.wrapping_sub(0xFF_FFFF) >> 50 -> expired
    assert!(is_lease_expired(0xFF_FFFF, 10, 50));
}

#[test]
fn test_force_takeover_after_expiry() {
    let mut b = zero_bucket();
    let mut ab = AtomicBucket::new(&mut b);

    // Manually set a locked state with a very old lease (timestamp ~0).
    // Lease at timestamp 0, now is > 100ms -> expired.
    let old_lv = (0u64 << 32) | (0u64 << 8) | 0x01;
    ab.store_lock(old_lv);

    // try_acquire_lock should detect expiry and succeed (force takeover).
    let result = try_acquire_lock(&mut ab, BucketMode::Inline);
    assert!(result.is_ok(), "force takeover should succeed on expired lease");

    assert!(ab.bucket.is_locked());
}

#[test]
fn test_no_takeover_when_lease_valid() {
    let mut b = zero_bucket();
    let mut ab = AtomicBucket::new(&mut b);

    // Recent lease: lease_ts ~ now_ms() (so not expired).
    let now = now_ms();
    let old_lv = (0u64 << 32) | (((now as u64) & 0xFF_FFFF) << 8) | 0x01;
    ab.store_lock(old_lv);

    let result = try_acquire_lock(&mut ab, BucketMode::Inline);
    assert!(matches!(result, Err(LockError::Locked)));
}

// -----------------------------------------------------------------------
// AtomicBucket CAS correctness
// -----------------------------------------------------------------------

#[test]
fn test_atomic_bucket_load_store() {
    let mut b = zero_bucket();
    let mut ab = AtomicBucket::new(&mut b);
    assert_eq!(ab.load_lock(), 0);

    ab.store_lock(0xABCD);
    assert_eq!(ab.load_lock(), 0xABCD);
}

#[test]
fn test_atomic_bucket_cas_success() {
    let mut b = zero_bucket();
    let mut ab = AtomicBucket::new(&mut b);

    let result = ab.cas_lock(0, 42);
    assert_eq!(result, Ok(0));
    assert_eq!(ab.load_lock(), 42);
}

#[test]
fn test_atomic_bucket_cas_failure() {
    let mut b = zero_bucket();
    let mut ab = AtomicBucket::new(&mut b);

    // Pre-set to something so 0 -> 99 fails.
    ab.store_lock(7);
    let result = ab.cas_lock(0, 99);
    assert_eq!(result, Err(7));
    assert_eq!(ab.load_lock(), 7);
}

// -----------------------------------------------------------------------
// Version wrapping
// -----------------------------------------------------------------------

#[test]
fn test_version_wrapping() {
    let mut b = zero_bucket();
    let mut ab = AtomicBucket::new(&mut b);

    // Set version to u32::MAX - 1
    let init_lv = ((u32::MAX as u64) - 1) << 32;
    ab.store_lock(init_lv);

    // Acquire: preserves version (u32::MAX - 1)
    let old = try_acquire_lock(&mut ab, BucketMode::Inline).unwrap();
    assert_eq!((old >> 32) as u32, u32::MAX - 1);

    // Release: version becomes u32::MAX (MAX - 1 + 1)
    release_lock(&mut ab, BucketMode::Inline, u32::MAX - 1);
    assert_eq!(ab.bucket.version(), u32::MAX);

    // Acquire again: version u32::MAX
    let old2 = try_acquire_lock(&mut ab, BucketMode::Inline).unwrap();
    assert_eq!((old2 >> 32) as u32, u32::MAX);

    // Release: wraps to 0
    release_lock(&mut ab, BucketMode::Inline, u32::MAX);
    assert_eq!(ab.bucket.version(), 0);
}

// -----------------------------------------------------------------------
// Lease expiration force takeover
// -----------------------------------------------------------------------

#[test]
fn test_force_takeover_expired_lock() {
    let mut bucket = zero_bucket();
    let now = now_ms();

    // Set an expired lock: lock set, lease in the past
    let old_lease = now.wrapping_sub(LEASE_TIMEOUT_MS + 1);
    bucket.lock_version =
        ((1u64) << 32) | ((old_lease as u64) << 8) | 0x01; // version=1, locked
    // mode = 0 (Inline)

    let result = force_takeover(&mut bucket, LEASE_TIMEOUT_MS);
    match result {
        TakeoverResult::Success { .. } => {
            assert!(!bucket.is_locked(), "Bucket should be unlocked after takeover");
            assert!(bucket.version() > 1, "Version should have incremented");
        }
        _ => panic!("Expected Success, got {:?}", result),
    }
}

#[test]
fn test_force_takeover_not_expired() {
    let mut bucket = zero_bucket();
    let now = now_ms();
    bucket.lock_version =
        ((1u64) << 32) | ((now as u64) << 8) | 0x01; // freshly locked

    let result = force_takeover(&mut bucket, LEASE_TIMEOUT_MS);
    assert_eq!(result, TakeoverResult::NotExpired);
    assert!(bucket.is_locked()); // Still locked
}

#[test]
fn test_force_takeover_not_locked() {
    let mut bucket = zero_bucket();
    let result = force_takeover(&mut bucket, LEASE_TIMEOUT_MS);
    assert_eq!(result, TakeoverResult::NotLocked);
}

#[test]
fn test_takeover_preserves_mode() {
    let mut bucket = zero_bucket();
    let now = now_ms();
    // Extent mode (bit2=1), locked (bit0=1) = 0x05
    let old_lease = now.wrapping_sub(LEASE_TIMEOUT_MS + 1);
    bucket.lock_version =
        ((1u64) << 32) | ((old_lease as u64) << 8) | 0x05;

    let result = force_takeover(&mut bucket, LEASE_TIMEOUT_MS);
    assert!(matches!(result, TakeoverResult::Success { .. }));
    assert!(!bucket.is_locked());
    assert!(bucket.is_extent(), "Extent mode should be preserved");
}

#[test]
fn test_repair_after_crash_clears_bucket() {
    let mut bucket = zero_bucket();
    bucket.key_hash = 0xDEADBEEF;
    bucket.set_inline_value(&[42u8; 32]);

    repair_after_crash(&mut bucket);

    assert_eq!(bucket.key_hash, 0);
    assert!(!bucket.is_locked());
    assert!(!bucket.is_tombstone());
}
