//! Local writes through the client.

use rdmas::client::read::ClientReader;
use rdmas::client::write::{ClientWriter, WriteResult};
use rdmas::engine::extent::LargeObjectRegion;
use rdmas::engine::layout::{BucketMode, HashBucket, HashedKey};
use rdmas::error::RdmaError;

/// Convenience helper: create a `HashedKey` with a given hash and a
/// reproducible 16-byte digest pattern.
fn make_key(hash: u64, seed: u8) -> HashedKey {
    let mut digest = [0u8; 16];
    digest[0] = seed;
    for i in 1..16 {
        digest[i] = digest[i - 1].wrapping_add(seed);
    }
    HashedKey { hash, digest }
}

/// Create a zero-initialized slice of `n` buckets.
fn make_buckets(n: usize) -> Vec<HashBucket> {
    vec![HashBucket::zeroed(); n]
}

// -----------------------------------------------------------------------
// test_insert_inline_at_empty_slot
// -----------------------------------------------------------------------

#[test]
fn test_insert_inline_at_empty_slot() {
    let mut buckets = make_buckets(8);
    let key = make_key(0xABCD, 1);
    let value = b"hello world";

    let result = ClientWriter::insert(&key, value, BucketMode::Inline, &mut buckets, None, 8)
        .expect("insert should not error");

    match result {
        WriteResult::Inserted { bucket_idx } => {
            let b = &buckets[bucket_idx];
            assert_eq!(b.key_hash, 0xABCD);
            // The digest must match.
            let expected_digest = {
                let mut d = [0u8; 16];
                d[0] = 1;
                for i in 1..16 {
                    d[i] = d[i - 1].wrapping_add(1);
                }
                d
            };
            assert_eq!(b.key_or_digest, expected_digest);
            assert!(b.is_inline());
            assert!(!b.is_locked());
            assert!(!b.is_tombstone());
            assert_eq!(&b.inline_value()[..11], b"hello world");
        }
        WriteResult::TableFull => panic!("expected Inserted, got TableFull"),
    }
}

// -----------------------------------------------------------------------
// test_kick_chain_displaces_key
// -----------------------------------------------------------------------

#[test]
fn test_kick_chain_displaces_key() {
    // 4-bucket table: with h2 always odd, only 1 extra slot for evictions.
    // After 3 inserts, a kick chain is likely to be triggered.
    let mut buckets = make_buckets(4);
    let bucket_count = 4u64;

    let k1 = make_key(0x1001, 10);
    let k2 = make_key(0x2002, 20);
    let k3 = make_key(0x3003, 30);

    // First two should insert directly.
    let r1 = ClientWriter::insert(
        &k1,
        b"one",
        BucketMode::Inline,
        &mut buckets,
        None,
        bucket_count,
    )
    .unwrap();
    assert!(matches!(r1, WriteResult::Inserted { .. }));

    let r2 = ClientWriter::insert(
        &k2,
        b"two",
        BucketMode::Inline,
        &mut buckets,
        None,
        bucket_count,
    )
    .unwrap();
    assert!(matches!(r2, WriteResult::Inserted { .. }));

    // The third insert may trigger a kick chain or return TableFull on a
    // tiny table. Either outcome is acceptable; we just validate no panic.
    match ClientWriter::insert(
        &k3,
        b"three",
        BucketMode::Inline,
        &mut buckets,
        None,
        bucket_count,
    ) {
        Ok(WriteResult::Inserted { .. }) | Ok(WriteResult::TableFull) => {}
        Err(e) => panic!("unexpected error: {e:?}"),
    }

    // k1 and k2 should still be findable: scan buckets to verify.
    let find_key = |buckets: &[HashBucket], hash: u64, digest: &[u8; 16]| -> bool {
        buckets
            .iter()
            .any(|b| b.matches_key(hash, digest) && !b.is_tombstone())
    };

    // Recompute k1 digest.
    let mut d1 = [0u8; 16];
    d1[0] = 10;
    for i in 1..16 {
        d1[i] = d1[i - 1].wrapping_add(10);
    }
    assert!(find_key(&buckets, 0x1001, &d1), "k1 should be in the table");

    let mut d2 = [0u8; 16];
    d2[0] = 20;
    for i in 1..16 {
        d2[i] = d2[i - 1].wrapping_add(20);
    }
    assert!(find_key(&buckets, 0x2002, &d2), "k2 should be in the table");
}

// -----------------------------------------------------------------------
// test_table_full_at_max_kick
// -----------------------------------------------------------------------

#[test]
fn test_table_full_at_max_kick() {
    // 4-bucket table : we pump many keys in until we hit TableFull.
    let mut buckets = make_buckets(4);
    let bucket_count = 4u64;

    let mut hit_table_full = false;

    // Insert up to 50 keys; at least one should fail on such a tiny table.
    for i in 0..50u64 {
        let hash = 0x5000 + i;
        let key = make_key(hash, (i & 0xFF) as u8);
        let value = (i as u64).to_le_bytes();
        match ClientWriter::insert(
            &key,
            &value,
            BucketMode::Inline,
            &mut buckets,
            None,
            bucket_count,
        ) {
            Ok(WriteResult::Inserted { .. }) => { /* ok */ }
            Ok(WriteResult::TableFull) => {
                hit_table_full = true;
                break;
            }
            Err(e) => panic!("unexpected error: {e:?}"),
        }
    }

    assert!(
        hit_table_full,
        "should eventually return TableFull on a tiny table"
    );
}

// -----------------------------------------------------------------------
// test_insert_extent_mode
// -----------------------------------------------------------------------

#[test]
fn test_insert_extent_mode() {
    let mut buckets = make_buckets(8);
    let mut region = LargeObjectRegion::new(4096);
    let key = make_key(0xDEAD, 42);
    let value = vec![0xABu8; 200]; // too large for Inline

    let result = ClientWriter::insert(
        &key,
        &value,
        BucketMode::Extent,
        &mut buckets,
        Some(&mut region),
        8,
    )
    .expect("extent insert should not error");

    match result {
        WriteResult::Inserted { bucket_idx } => {
            let b = &buckets[bucket_idx];
            assert!(b.is_extent());
            assert!(!b.is_locked());
            assert!(!b.is_tombstone());
            assert_eq!(b.key_hash, 0xDEAD);

            // Read the extent back via LargeObjectRegion.
            let (offset, length) = b.extent_ref();
            assert_eq!(length, 200);
            let read_back = region.read(offset).expect("extent read should succeed");
            assert_eq!(read_back, value);
        }
        WriteResult::TableFull => panic!("expected Inserted, got TableFull"),
    }
}

// -----------------------------------------------------------------------
// test_kick_chain_with_lock_conflict
// -----------------------------------------------------------------------

#[test]
fn test_kick_chain_with_lock_conflict() {
    let mut buckets = make_buckets(8);
    let bucket_count = 8u64;

    // Manually lock bucket 0 (the lock bit + Inline mode).
    // Lock version = 0x01 -> locked, Inline, version 0.
    buckets[0].lock_version = 0x01;
    buckets[0].key_hash = 0xBEEF; // make it look occupied

    // Now try to insert a key that maps to bucket 0 for h1.
    // We need key.hash % 8 == 0. Choose hash=8: h1=0, h2 = ((0>>32)%8)|1 = 1.
    let key = HashedKey {
        hash: 8,
        digest: [0xCC; 16],
    };

    // h1 is bucket 0 (locked), so try_insert_at returns false.
    // h2 is bucket 1 (should be empty), so the insert should succeed there.
    let result = ClientWriter::insert(
        &key,
        b"lock-test",
        BucketMode::Inline,
        &mut buckets,
        None,
        bucket_count,
    )
    .expect("insert should not error");

    // Should succeed at h2 (bucket 1), not h1 (locked).
    match result {
        WriteResult::Inserted { bucket_idx } => {
            assert_eq!(bucket_idx, 1, "should insert at h2=1, not locked h1=0");
            let b = &buckets[1];
            assert!(b.matches_key(8, &[0xCC; 16]));
            assert!(!b.is_locked());
        }
        WriteResult::TableFull => {
            // Edge case: if bucket 1 was also occupied (unlikely with
            // fresh zeroed buckets), TableFull is also valid.
            // In that case, verify bucket 1 is indeed not empty.
            assert!(!buckets[1].is_empty());
        }
    }

    // Verify bucket 0 remains locked and unchanged.
    assert!(buckets[0].is_locked());
    assert_eq!(buckets[0].key_hash, 0xBEEF);
}

// -----------------------------------------------------------------------
// test_insert_empty_value_inline
// -----------------------------------------------------------------------

#[test]
fn test_insert_empty_value_inline() {
    let mut buckets = make_buckets(8);
    let key = make_key(0x9999, 99);

    let result = ClientWriter::insert(&key, b"", BucketMode::Inline, &mut buckets, None, 8)
        .expect("empty value insert should not error");

    match result {
        WriteResult::Inserted { bucket_idx } => {
            let b = &buckets[bucket_idx];
            assert!(b.is_inline());
            // Body should be all zeros.
            assert!(b.inline_value().iter().all(|&x| x == 0));
        }
        WriteResult::TableFull => panic!("expected Inserted for empty value"),
    }
}

// -----------------------------------------------------------------------
// test_tombstone_slot_is_reused
// -----------------------------------------------------------------------

#[test]
fn test_tombstone_slot_is_reused() {
    let mut buckets = make_buckets(8);
    let bucket_count = 8u64;

    // Manually mark bucket 0 as a tombstone with some old key data.
    buckets[0].key_hash = 0x1111;
    buckets[0].key_or_digest = [0x11; 16];
    buckets[0].mark_tombstone();

    // Insert a key that hashes to bucket 0 for h1.
    // With bucket_count=8, need hash such that hash % 8 == 0. Use hash=0.
    // hash=0 is h1=0, h2 = ((0>>32)%8)|1 = 1.
    // But hash=0 is the empty sentinel : avoid it. Use hash=8: h1=0, h2=1.
    let key = HashedKey {
        hash: 8,
        digest: [0x22; 16],
    };

    let result = ClientWriter::insert(
        &key,
        b"reused",
        BucketMode::Inline,
        &mut buckets,
        None,
        bucket_count,
    )
    .expect("insert into tombstone should not error");

    assert!(
        matches!(result, WriteResult::Inserted { .. }),
        "tombstone slot should be reusable"
    );

    // The key should now reside in the table.
    let found = buckets
        .iter()
        .any(|b| b.matches_key(8, &[0x22; 16]) && !b.is_tombstone());
    assert!(found, "key should be in the table after tombstone reuse");
}

// -----------------------------------------------------------------------
// test_extent_mode_without_region_returns_error
// -----------------------------------------------------------------------

#[test]
fn test_extent_mode_without_region_returns_error() {
    let mut buckets = make_buckets(8);
    let key = make_key(0xAAAA, 5);

    let result = ClientWriter::insert(
        &key,
        b"data",
        BucketMode::Extent,
        &mut buckets,
        None, // no LargeObjectRegion provided
        8,
    );

    assert!(
        result.is_err(),
        "Extent mode without a region should be an error"
    );
    if let Err(RdmaError::Internal(msg)) = result {
        assert!(msg.contains("Extent"), "error should mention Extent: {msg}");
    } else if let Err(e) = result {
        panic!("expected Internal error, got {e:?}");
    }
}

#[test]
fn a_key_reads_back_beside_a_key_that_was_written_twice() {
    let mut buckets = make_buckets(16);
    // The first key is written twice, which fills both of its candidate buckets.
    let twice = make_key(0x3_0000_0002, 1);
    for value in [b"old", b"new"] {
        let r = ClientWriter::insert(&twice, value, BucketMode::Inline, &mut buckets, None, 16);
        assert!(matches!(r, Ok(WriteResult::Inserted { .. })));
    }
    // The second key shares the first of them, and finds its second one free.
    let once = make_key(0x5_0000_0002, 2);
    let r = ClientWriter::insert(&once, b"mine", BucketMode::Inline, &mut buckets, None, 16);
    assert_eq!(r, Ok(WriteResult::Inserted { bucket_idx: 5 }));
    let found = ClientReader::get(&once, &buckets, None, 16).unwrap().unwrap();
    assert_eq!(&found.value[..4], b"mine");
}
