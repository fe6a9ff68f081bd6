//! Bucket layout, lock words and headers.

use rdmas::engine::layout::{
    header_size_for_version, BucketMode, ExtentHeader, ExtentHeaderV2, FreeListHeader, HashBucket,
};

/// Helper: create a zero-initialized (idle, alive, Inline) bucket.
fn zero_bucket() -> HashBucket {
    HashBucket {
        lock_version: 0,
        key_hash: 0,
        key_or_digest: [0u8; 16],
        body: [0u8; 32],
    }
}

// -----------------------------------------------------------------------
// Bitfield read tests
// -----------------------------------------------------------------------

#[test]
fn test_bitfield_idle_inline() {
    let b = zero_bucket();
    assert!(!b.is_locked());
    assert!(!b.is_tombstone());
    assert!(b.is_inline());
    assert!(!b.is_extent());
    assert_eq!(b.version(), 0);
    assert_eq!(b.lease_ts(), 0);
}

#[test]
fn test_bitfield_locked_inline() {
    let mut b = zero_bucket();
    b.lock_version = 0x01; // locked, Inline
    assert!(b.is_locked());
    assert!(!b.is_tombstone());
    assert!(b.is_inline());
    assert!(!b.is_extent());
}

#[test]
fn test_bitfield_tombstone() {
    let mut b = zero_bucket();
    b.lock_version = 0x02; // tombstone
    assert!(!b.is_locked());
    assert!(b.is_tombstone());
    // Mode is still Inline (bit2 == 0)
    assert!(b.is_inline());
    assert!(!b.is_extent());
}

#[test]
fn test_bitfield_extent_idle() {
    let mut b = zero_bucket();
    b.lock_version = 0x04; // mode=Extent, not locked, not tombstone
    assert!(!b.is_locked());
    assert!(!b.is_tombstone());
    assert!(!b.is_inline());
    assert!(b.is_extent());
}

#[test]
fn test_bitfield_locked_extent() {
    let mut b = zero_bucket();
    b.lock_version = 0x05; // locked + Extent
    assert!(b.is_locked());
    assert!(!b.is_tombstone());
    assert!(!b.is_inline());
    assert!(b.is_extent());
}

#[test]
fn test_version_and_lease() {
    let mut b = zero_bucket();
    b.lock_version = (42u64 << 32) | (1234u64 << 8) | 0x01;
    assert_eq!(b.version(), 42);
    assert_eq!(b.lease_ts(), 1234);
    assert!(b.is_locked());
}

// -----------------------------------------------------------------------
// set_locked / unlock_bucket / mark_tombstone
// -----------------------------------------------------------------------

#[test]
fn test_set_locked_inline() {
    let mut b = zero_bucket();
    b.lock_version = 5u64 << 32; // version 5, unlocked, idle
    b.set_locked(999, BucketMode::Inline);
    assert!(b.is_locked());
    assert!(b.is_inline());
    assert_eq!(b.version(), 5);
    assert_eq!(b.lease_ts(), 999);
}

#[test]
fn test_set_locked_extent() {
    let mut b = zero_bucket();
    b.lock_version = 3u64 << 32;
    b.set_locked(500, BucketMode::Extent);
    assert!(b.is_locked());
    assert!(b.is_extent());
    assert_eq!(b.version(), 3);
    assert_eq!(b.lease_ts(), 500);
}

#[test]
fn test_set_locked_clamps_lease_24bit() {
    let mut b = zero_bucket();
    b.set_locked(0xFF_FFFF + 10, BucketMode::Inline); // exceeds 24 bits
                                                      // Only lower 24 bits should be stored
    assert_eq!(b.lease_ts(), (0xFF_FFFF + 10) & 0xFF_FFFF);
}

#[test]
fn test_unlock_inline() {
    let mut b = zero_bucket();
    b.lock_version = (7u64 << 32) | (100u64 << 8) | 0x01; // locked inline
    b.unlock_bucket(8);
    assert!(!b.is_locked());
    assert!(b.is_inline());
    assert_eq!(b.version(), 8);
    assert_eq!(b.lease_ts(), 0);
}

#[test]
fn test_unlock_extent_preserves_mode() {
    let mut b = zero_bucket();
    b.lock_version = (2u64 << 32) | 0x05; // locked extent
    b.unlock_bucket(3);
    assert!(!b.is_locked());
    assert!(b.is_extent());
    assert_eq!(b.version(), 3);
}

#[test]
fn test_mark_tombstone_from_locked() {
    let mut b = zero_bucket();
    b.lock_version = (10u64 << 32) | (200u64 << 8) | 0x01; // locked inline
    b.mark_tombstone();
    assert!(!b.is_locked());
    assert!(b.is_tombstone());
    // version preserved
    assert_eq!(b.version(), 10);
    // lease cleared
    assert_eq!(b.lease_ts(), 0);
}

#[test]
fn test_mark_tombstone_from_idle() {
    let mut b = zero_bucket();
    b.lock_version = 1u64 << 32; // unlocked, idle, Inline
    b.mark_tombstone();
    assert!(!b.is_locked());
    assert!(b.is_tombstone());
    assert_eq!(b.version(), 1);
}

// -----------------------------------------------------------------------
// is_expired
// -----------------------------------------------------------------------

#[test]
fn test_is_expired_true() {
    let mut b = zero_bucket();
    b.lock_version = (0u64 << 32) | (0u64 << 8) | 0x01; // locked, lease_ts=0
                                                        // now=200, timeout=100 -> 200-0 >= 100
    assert!(b.is_expired(200, 100));
}

#[test]
fn test_is_expired_false_still_valid() {
    let mut b = zero_bucket();
    b.lock_version = (0u64 << 32) | (100u64 << 8) | 0x01; // locked, lease_ts=100
                                                          // now=150, timeout=100 -> 150-100=50 < 100
    assert!(!b.is_expired(150, 100));
}

#[test]
fn test_is_expired_false_unlocked() {
    let b = zero_bucket();
    // Not locked, so never expired
    assert!(!b.is_expired(999, 1));
}

#[test]
fn test_is_expired_exact_boundary() {
    let mut b = zero_bucket();
    b.lock_version = (0u64 << 32) | (50u64 << 8) | 0x01; // locked, lease_ts=50
                                                         // now=150, timeout=100 -> 150-50=100 == 100 -> expired
    assert!(b.is_expired(150, 100));
}

#[test]
fn test_is_expired_wrapping() {
    // lease_ts is only 24 bits, but `now` is a full u32.  When `now`
    // wraps around (e.g. it is smaller than the lease timestamp),
    // `wrapping_sub` correctly handles the overflow.
    let mut b = zero_bucket();
    // lease_ts at the max 24-bit value (16_777_215)
    b.lock_version = (0u64 << 32) | ((0xFF_FFFFu64) << 8) | 0x01;

    // now = 10, timeout = 20
    // 10.wrapping_sub(16_777_215) wraps to ~4_294_950_091, which >= 20
    assert!(b.is_expired(10, 20));
}

// -----------------------------------------------------------------------
// ExtentRef round-trip
// -----------------------------------------------------------------------

#[test]
fn test_extent_ref_round_trip() {
    let mut b = zero_bucket();
    b.set_extent_ref(0xDEAD_BEEF_CAFE, 65536);
    let (off, len) = b.extent_ref();
    assert_eq!(off, 0xDEAD_BEEF_CAFE);
    assert_eq!(len, 65536);
}

#[test]
fn test_extent_ref_zero() {
    let mut b = zero_bucket();
    b.set_extent_ref(0, 0);
    let (off, len) = b.extent_ref();
    assert_eq!(off, 0);
    assert_eq!(len, 0);
}

#[test]
fn test_extent_ref_max() {
    let mut b = zero_bucket();
    b.set_extent_ref(u64::MAX, u64::MAX);
    let (off, len) = b.extent_ref();
    assert_eq!(off, u64::MAX);
    assert_eq!(len, u64::MAX);
}

// -----------------------------------------------------------------------
// Inline value round-trip
// -----------------------------------------------------------------------

#[test]
fn test_inline_value_round_trip() {
    let mut b = zero_bucket();
    let val: [u8; 32] = [0xAA; 32];
    b.set_inline_value(&val);
    assert_eq!(b.inline_value(), &val);
}

#[test]
fn test_inline_value_partial() {
    let mut b = zero_bucket();
    let mut val = [0u8; 32];
    val[0] = b'H';
    val[1] = b'i';
    b.set_inline_value(&val);
    assert_eq!(b.inline_value()[0], b'H');
    assert_eq!(b.inline_value()[1], b'i');
    // The rest should be zero
    assert!(b.inline_value()[2..].iter().all(|&b| b == 0));
}

// -----------------------------------------------------------------------
// is_empty
// -----------------------------------------------------------------------

#[test]
fn test_is_empty_fresh() {
    let b = zero_bucket();
    assert!(b.is_empty());
}

#[test]
fn test_is_empty_with_hash() {
    let mut b = zero_bucket();
    b.key_hash = 12345;
    assert!(!b.is_empty());
}

#[test]
fn test_is_empty_tombstone_not_empty() {
    let mut b = zero_bucket();
    b.lock_version = 0x02; // tombstone, key_hash==0
    assert!(!b.is_empty()); // tombstone is not empty
}

#[test]
fn test_is_empty_locked_but_zero_hash() {
    // A locked bucket with key_hash==0 is still "empty" (insertion
    // in-flight).
    let mut b = zero_bucket();
    b.lock_version = 0x01; // locked, Inline
    assert!(b.is_empty());
}

// -----------------------------------------------------------------------
// matches_key
// -----------------------------------------------------------------------

#[test]
fn test_matches_key_exact() {
    let mut b = zero_bucket();
    b.key_hash = 0xABCD;
    b.key_or_digest = *b"hello world 1234"; // 16 bytes exactly
    let digest = *b"hello world 1234";
    assert!(b.matches_key(0xABCD, &digest));
}

#[test]
fn test_matches_key_wrong_hash() {
    let mut b = zero_bucket();
    b.key_hash = 0xABCD;
    let digest = *b"hello world 1234";
    b.key_or_digest = digest;
    assert!(!b.matches_key(0x9999, &digest));
}

#[test]
fn test_matches_key_wrong_digest() {
    let mut b = zero_bucket();
    b.key_hash = 0xABCD;
    b.key_or_digest = *b"hello world 1234";
    assert!(!b.matches_key(0xABCD, b"wrong digest!!  "));
}

// -----------------------------------------------------------------------
// Size / alignment assertions (re-checked at runtime for good measure)
// -----------------------------------------------------------------------

#[test]
fn test_hash_bucket_size() {
    assert_eq!(core::mem::size_of::<HashBucket>(), 64);
}

#[test]
fn test_extent_header_size() {
    assert_eq!(core::mem::size_of::<ExtentHeader>(), 24);
}

#[test]
fn test_extent_header_v2_size() {
    assert_eq!(core::mem::size_of::<ExtentHeaderV2>(), 32);
}

#[test]
fn test_header_size_for_version() {
    assert_eq!(header_size_for_version(0), 24); // V1
    assert_eq!(header_size_for_version(1), 32); // V2
    assert_eq!(header_size_for_version(2), 32); // Unknown -> V2 fallback
    assert_eq!(header_size_for_version(255), 32); // Unknown max
}

// -----------------------------------------------------------------------
// FreeListHeader tests
// -----------------------------------------------------------------------

#[test]
fn test_free_list_header_default_is_zero() {
    let h = FreeListHeader {
        bump_offset: 0,
        _pad: [0u8; 56],
    };
    assert_eq!(h.bump_offset, 0);
    // Verify zeroed padding bytes
    assert!(h._pad.iter().all(|&b| b == 0));
}

#[test]
fn test_free_list_header_size() {
    assert_eq!(core::mem::size_of::<FreeListHeader>(), 64);
}
