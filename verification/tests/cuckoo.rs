//! The Cuckoo hash table.

use rdmas::engine::cuckoo::{CuckooError, CuckooTable, DEFAULT_MAX_KICK};
use rdmas::engine::layout::{BucketMode, HashedKey};

/// Build a `HashedKey` with a given hash and a simple 16-byte pattern.
fn make_key(hash: u64, seed: u8) -> HashedKey {
    let mut digest = [0u8; 16];
    digest[0] = seed;
    for i in 1..16 {
        digest[i] = digest[i - 1].wrapping_add(seed);
    }
    HashedKey { hash, digest }
}

/// Build a lookup key identical to the one returned by `make_key`.
fn key(hash: u64, seed: u8) -> HashedKey {
    make_key(hash, seed)
}

// -----------------------------------------------------------------------
// Basic insert / lookup / delete
// -----------------------------------------------------------------------

#[test]
fn insert_lookup_inline() {
    let mut table = CuckooTable::new(16, DEFAULT_MAX_KICK);
    let k = make_key(0xABCD, 1);
    let val = b"hello";

    table.insert(&k, val, BucketMode::Inline).unwrap();
    let res = table.lookup(&key(0xABCD, 1)).unwrap();

    assert_eq!(res.mode, BucketMode::Inline);
    assert_eq!(&res.value[..5], b"hello");
    assert_eq!(res.extent_offset, 0);
    assert_eq!(res.extent_length, 0);
}

#[test]
fn insert_lookup_extent() {
    let mut table = CuckooTable::new(16, DEFAULT_MAX_KICK);
    let k = make_key(0xBEEF, 2);
    let offset = 0x1000u64;
    let length = 0x2000u64;

    table.insert_extent(&k, offset, length).unwrap();
    let res = table.lookup(&key(0xBEEF, 2)).unwrap();

    assert_eq!(res.mode, BucketMode::Extent);
    assert_eq!(res.extent_offset, offset);
    assert_eq!(res.extent_length, length);
}

#[test]
fn delete_existing() {
    let mut table = CuckooTable::new(16, DEFAULT_MAX_KICK);
    let k = make_key(0xCAFE, 3);

    table.insert(&k, b"data", BucketMode::Inline).unwrap();
    assert!(table.lookup(&key(0xCAFE, 3)).is_some());

    let deleted = table.delete(&key(0xCAFE, 3));
    assert!(deleted);
    assert!(table.lookup(&key(0xCAFE, 3)).is_none());
}

#[test]
fn delete_nonexistent() {
    let mut table = CuckooTable::new(16, DEFAULT_MAX_KICK);
    assert!(!table.delete(&key(0xDEAD, 4)));
}

#[test]
fn lookup_missing() {
    let table = CuckooTable::new(16, DEFAULT_MAX_KICK);
    assert!(table.lookup(&key(0xF00D, 5)).is_none());
}

// -----------------------------------------------------------------------
// Overwrite (idempotent insert)
// -----------------------------------------------------------------------

#[test]
fn overwrite_same_key() {
    let mut table = CuckooTable::new(16, DEFAULT_MAX_KICK);
    let k = make_key(0x1111, 10);

    table.insert(&k, b"first", BucketMode::Inline).unwrap();
    table.insert(&k, b"second", BucketMode::Inline).unwrap();

    let res = table.lookup(&key(0x1111, 10)).unwrap();
    assert_eq!(&res.value[..6], b"second");
}

#[test]
fn overwrite_changes_mode() {
    let mut table = CuckooTable::new(16, DEFAULT_MAX_KICK);
    let k = make_key(0x2222, 11);

    // Insert as Inline first
    table
        .insert(&k, b"inline_data", BucketMode::Inline)
        .unwrap();
    assert_eq!(
        table.lookup(&key(0x2222, 11)).unwrap().mode,
        BucketMode::Inline
    );

    // Overwrite as Extent
    table.insert_extent(&k, 0x5000, 0x6000).unwrap();
    let res = table.lookup(&key(0x2222, 11)).unwrap();
    assert_eq!(res.mode, BucketMode::Extent);
    assert_eq!(res.extent_offset, 0x5000);
    assert_eq!(res.extent_length, 0x6000);
}

// -----------------------------------------------------------------------
// Kick chain
// -----------------------------------------------------------------------

#[test]
fn kick_chain_basic() {
    // Tiny table (4 buckets) -> force kicks after a few inserts.
    let mut table = CuckooTable::new(4, DEFAULT_MAX_KICK);

    let k1 = make_key(0x1001, 20);
    let k2 = make_key(0x2002, 21);
    let k3 = make_key(0x3003, 22);

    // First 2 should fit easily.
    table.insert(&k1, b"a", BucketMode::Inline).unwrap();
    table.insert(&k2, b"b", BucketMode::Inline).unwrap();

    // The third one triggers a kick (4 buckets, load factor now > 50%).
    match table.insert(&k3, b"c", BucketMode::Inline) {
        Ok(()) | Err(CuckooError::TableFull) => {
            // Either outcome is valid for a small table; we just want to
            // exercise the kick path without panicking.
        }
        Err(e) => panic!("unexpected error: {e:?}"),
    }

    // At least k1 and k2 should still be reachable (they were inserted
    // before the kick).
    assert!(table.lookup(&key(0x1001, 20)).is_some());
    assert!(table.lookup(&key(0x2002, 21)).is_some());
}

#[test]
fn kick_chain_preserves_existing_keys() {
    // Fill a 4-bucket table with 2 keys, then verify they survive kicks.
    let mut table = CuckooTable::new(4, DEFAULT_MAX_KICK);

    let k1 = make_key(0xA001, 30);
    let k2 = make_key(0xA002, 31);

    table.insert(&k1, b"one", BucketMode::Inline).unwrap();
    table.insert(&k2, b"two", BucketMode::Inline).unwrap();

    // Try to insert a third key -> may trigger kick chain.
    let k3 = make_key(0xA003, 32);
    let _ = table.insert(&k3, b"three", BucketMode::Inline);

    // Both earlier keys must still be findable.
    let r1 = table.lookup(&key(0xA001, 30)).unwrap();
    assert_eq!(&r1.value[..3], b"one");

    let r2 = table.lookup(&key(0xA002, 31)).unwrap();
    assert_eq!(&r2.value[..3], b"two");
}

// -----------------------------------------------------------------------
// MAX_KICK overflow -> TableFull
// -----------------------------------------------------------------------

#[test]
fn table_full_with_max_kick_0() {
    // max_kick = 0 means the first collision returns TableFull immediately.
    let mut table = CuckooTable::new(2, 0);

    let k1 = make_key(0x5001, 40);
    let k2 = make_key(0x5002, 41);

    // First insert succeeds.
    table.insert(&k1, b"x", BucketMode::Inline).unwrap();

    // If k2 maps to the same two slots, insert fails immediately.
    // We can't control the exact hash mapping, but with max_kick=0 any
    // collision causes TableFull.
    let result = table.insert(&k2, b"y", BucketMode::Inline);
    if table.lookup(&key(0x5002, 41)).is_some() {
        // k2 was inserted successfully (different slots).
    } else {
        assert_eq!(result, Err(CuckooError::TableFull));
    }
}

// -----------------------------------------------------------------------
// Invalid key (zero hash)
// -----------------------------------------------------------------------

#[test]
fn zero_hash_rejected() {
    let mut table = CuckooTable::new(16, DEFAULT_MAX_KICK);
    let k = HashedKey {
        hash: 0,
        digest: [1u8; 16],
    };

    assert_eq!(
        table.insert(&k, b"x", BucketMode::Inline),
        Err(CuckooError::InvalidKey)
    );
    assert_eq!(table.insert_extent(&k, 0, 0), Err(CuckooError::InvalidKey));
}

// -----------------------------------------------------------------------
// Collision handling (same hash, different digest)
// -----------------------------------------------------------------------

#[test]
fn same_hash_different_digest() {
    let mut table = CuckooTable::new(16, DEFAULT_MAX_KICK);

    let k1 = HashedKey {
        hash: 0x9999,
        digest: *b"AAAA_AAAA_AAAA_A",
    };
    let k2 = HashedKey {
        hash: 0x9999,
        digest: *b"BBBB_BBBB_BBBB_B",
    };

    table.insert(&k1, b"alpha", BucketMode::Inline).unwrap();
    table.insert(&k2, b"beta", BucketMode::Inline).unwrap();

    let r1 = table.lookup(&k1).unwrap();
    assert_eq!(&r1.value[..5], b"alpha");

    let r2 = table.lookup(&k2).unwrap();
    assert_eq!(&r2.value[..4], b"beta");
}

#[test]
fn collision_lookup_uses_digest_to_disambiguate() {
    let mut table = CuckooTable::new(16, DEFAULT_MAX_KICK);

    let k1 = HashedKey {
        hash: 42,
        digest: [1u8; 16],
    };
    let k2 = HashedKey {
        hash: 42,
        digest: [2u8; 16],
    };

    table.insert(&k1, b"first_val", BucketMode::Inline).unwrap();

    // k2 has same hash but different digest -> different key.
    // Lookup with wrong digest must not return k1's value.
    assert!(table.lookup(&k2).is_none());

    // But k1 is still there.
    let r1 = table.lookup(&k1).unwrap();
    assert_eq!(&r1.value[..9], b"first_val");
}

// -----------------------------------------------------------------------
// Round-trip: insert -> lookup -> delete -> lookup
// -----------------------------------------------------------------------

#[test]
fn round_trip_inline() {
    let mut table = CuckooTable::new(32, DEFAULT_MAX_KICK);
    let k = make_key(0x7001, 50);

    // Insert
    table
        .insert(&k, b"roundtrip_test", BucketMode::Inline)
        .unwrap();

    // Lookup
    let res = table.lookup(&key(0x7001, 50)).unwrap();
    assert_eq!(&res.value[..14], b"roundtrip_test");

    // Delete
    assert!(table.delete(&key(0x7001, 50)));

    // Lookup after delete -> None
    assert!(table.lookup(&key(0x7001, 50)).is_none());
}

#[test]
fn round_trip_extent() {
    let mut table = CuckooTable::new(32, DEFAULT_MAX_KICK);
    let k = make_key(0x7002, 51);

    // Insert
    table.insert_extent(&k, 0xDEAD_B000, 4096).unwrap();

    // Lookup
    let res = table.lookup(&key(0x7002, 51)).unwrap();
    assert_eq!(res.mode, BucketMode::Extent);
    assert_eq!(res.extent_offset, 0xDEAD_B000);
    assert_eq!(res.extent_length, 4096);

    // Delete
    assert!(table.delete(&key(0x7002, 51)));

    // Gone
    assert!(table.lookup(&key(0x7002, 51)).is_none());
}

// -----------------------------------------------------------------------
// Inline vs Extent body distinction
// -----------------------------------------------------------------------

#[test]
fn inline_value_uses_full_32_bytes() {
    let mut table = CuckooTable::new(16, DEFAULT_MAX_KICK);
    let k = make_key(0x8001, 60);
    let val = [0xCCu8; 32];

    table.insert(&k, &val, BucketMode::Inline).unwrap();
    let res = table.lookup(&key(0x8001, 60)).unwrap();

    assert_eq!(res.mode, BucketMode::Inline);
    assert_eq!(res.value.len(), 32);
    assert_eq!(&res.value[..], &val[..]);
}

#[test]
fn inline_value_short_zero_pads() {
    let mut table = CuckooTable::new(16, DEFAULT_MAX_KICK);
    let k = make_key(0x8002, 61);

    table.insert(&k, b"hi", BucketMode::Inline).unwrap();
    let res = table.lookup(&key(0x8002, 61)).unwrap();

    assert_eq!(&res.value[..2], b"hi");
    // The remaining 30 bytes must be zero.
    assert!(res.value[2..].iter().all(|&b| b == 0));
}

#[test]
fn extent_body_stores_offset_length() {
    let mut table = CuckooTable::new(16, DEFAULT_MAX_KICK);
    let k = make_key(0x8003, 62);

    table
        .insert_extent(&k, 0x1234567890ABCDEF, 0xFEDCBA0987654321)
        .unwrap();

    // Check raw bucket body.
    let h1 = table.h1(0x8003);
    let bucket = &table.buckets()[h1];
    let (off, len) = bucket.extent_ref();
    assert_eq!(off, 0x1234567890ABCDEF);
    assert_eq!(len, 0xFEDCBA0987654321);
}

// -----------------------------------------------------------------------
// Bucket count and slot access
// -----------------------------------------------------------------------

#[test]
fn bucket_count_power_of_two() {
    for &n in &[2u64, 4, 8, 16, 32, 64, 128, 256, 1024] {
        let table = CuckooTable::new(n, DEFAULT_MAX_KICK);
        assert_eq!(table.bucket_count(), n);
        assert_eq!(table.buckets().len(), n as usize);
    }
}

#[test]
fn bucket_mut_access() {
    let mut table = CuckooTable::new(8, DEFAULT_MAX_KICK);

    // Access bucket 0 directly and set a key.
    let b = table.bucket_mut(0);
    b.key_hash = 0x42;
    b.key_or_digest = [0x42u8; 16];
    assert_eq!(table.buckets()[0].key_hash, 0x42);
}

// -----------------------------------------------------------------------
// Delete then reuse (tombstone slot is reusable)
// -----------------------------------------------------------------------

#[test]
fn tombstone_slot_reused() {
    let mut table = CuckooTable::new(16, DEFAULT_MAX_KICK);
    let k1 = make_key(0x9001, 70);

    // Insert and delete -> slot becomes tombstone.
    table.insert(&k1, b"deleteme", BucketMode::Inline).unwrap();
    table.delete(&k1);

    // A new key that maps to the same slot(s) should reuse the tombstone.
    let k2 = make_key(0x9001, 70); // same key : but h1/h2 are the same
                                   // Actually use a different key that hashes to the same slot.
                                   // We'll just try to re-insert k1 (same hash -> same buckets).
                                   // The tombstone slot should be reusable.
    table.insert(&k2, b"reused", BucketMode::Inline).unwrap();
    let res = table.lookup(&key(0x9001, 70)).unwrap();
    assert_eq!(&res.value[..6], b"reused");
}

// -----------------------------------------------------------------------
// Stress: many inserts
// -----------------------------------------------------------------------

#[test]
fn many_inserts_and_lookups() {
    let n_buckets = 64u64;
    let mut table = CuckooTable::new(n_buckets, DEFAULT_MAX_KICK);
    let n_keys = 16;

    let mut inserted = Vec::new();
    for i in 0..n_keys {
        let hash = 0x1000_0000 + i as u64;
        let k = make_key(hash, i as u8);
        match table.insert(&k, &(i as u64).to_le_bytes(), BucketMode::Inline) {
            Ok(()) => inserted.push((hash, i as u8)),
            Err(CuckooError::TableFull) => { /* skip, table may fill */ }
            Err(CuckooError::InvalidKey) => unreachable!(),
        }
    }

    // Every successfully inserted key must be findable.
    for &(hash, seed) in &inserted {
        let res = table.lookup(&key(hash, seed));
        assert!(res.is_some(), "missing key hash={hash:#x} seed={seed}");
    }

    // Delete all inserted keys.
    for &(hash, seed) in &inserted {
        assert!(table.delete(&key(hash, seed)));
    }

    // Verify all are gone.
    for &(hash, seed) in &inserted {
        assert!(table.lookup(&key(hash, seed)).is_none());
    }
}

// -----------------------------------------------------------------------
// Edge: h1 == h2 (both hash to the same bucket) : degenerate but legal
// -----------------------------------------------------------------------

#[test]
fn same_h1_and_h2() {
    // Choose a hash such that h1 == h2.  With bucket_count == 4:
    //   h1 = hash % 4
    //   h2 = ((hash >> 32) % 4) | 1
    // If both are, say, 1, then the key only has one home bucket.
    // This should still work (kick chain just degenerates).
    let _bucket_count = 4u64;
    // We need hash % 4 == ((hash >> 32) % 4) | 1 and the |1 makes it odd.
    // Say hash % 4 = 1, ((hash>>32) % 4) = 0, (0|1) = 1. Both 1.
    // Or hash % 4 = 3, ((hash>>32) % 4) = 2, (2|1) = 3. Both 3.
    let _hash = 3u64; // h1 = 3, h2 = ((0>>32)%4)|1 = 0|1 = 1. Different.
                      // Let's just test that the table doesn't crash when h1 == h2.
                      // With bucket_count = 2, one possible odd h2 is 1.
                      // h1 could be 1 too. hash=1: h1=1, h2=((0)%2)|1 = 1. Both 1.
    let mut table = CuckooTable::new(2, DEFAULT_MAX_KICK);
    let k = HashedKey {
        hash: 1,
        digest: [0xABu8; 16],
    };

    // This should not panic : either Ok or TableFull.
    let _ = table.insert(&k, b"x", BucketMode::Inline);
}

// -----------------------------------------------------------------------
// Lock-free insert / lookup tests
// -----------------------------------------------------------------------

/// Helper: create a `HashedKey` from a string seed using xxhash.
fn bench_key(s: &str) -> HashedKey {
    let hash = xxhash_rust::xxh64::xxh64(s.as_bytes(), 0);
    let mut digest = [0u8; 16];
    let h2 = xxhash_rust::xxh64::xxh64(s.as_bytes(), 1);
    digest[0..8].copy_from_slice(&hash.to_le_bytes());
    digest[8..16].copy_from_slice(&h2.to_le_bytes());
    HashedKey { hash, digest }
}

#[test]
fn test_lock_free_insert_basic() {
    let mut table = CuckooTable::new(64, 16);
    let key = bench_key("lf_key");
    let val = 42u64.to_le_bytes();
    assert!(table
        .insert_lock_free(&key, &val, BucketMode::Inline)
        .is_ok());
    assert!(table.lookup_lock_free(&key).is_some());
}

// -----------------------------------------------------------------------
// Fast-path lookup tests
// -----------------------------------------------------------------------

#[test]
fn test_get_fast_h1_hit() {
    let mut table = CuckooTable::new(64, 16);
    let key = bench_key("fast_key");
    let val = [1u8, 2, 3, 4];
    table.insert(&key, &val, BucketMode::Inline).unwrap();
    let result = table.get_fast(&key);
    assert!(result.is_some());
    assert_eq!(&result.unwrap().0[..4], &val);
}

#[test]
fn test_get_fast_missing() {
    let table = CuckooTable::new(64, 16);
    let key = bench_key("missing_fast");
    assert!(table.get_fast(&key).is_none());
}
