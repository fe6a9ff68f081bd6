//! Local reads through the client.

use rdmas::client::read::{ClientReader, ReadResult};
use rdmas::engine::cuckoo::CuckooTable;
use rdmas::engine::extent::LargeObjectRegion;
use rdmas::engine::layout::{BucketMode, HashBucket, HashedKey};
use rdmas::error::RdmaError;
use xxhash_rust::xxh64::xxh64;

// -----------------------------------------------------------------------
// Test helpers
// -----------------------------------------------------------------------

/// Build a `HashedKey` from a string using XXH64 + XXH128-style digest.
///
/// The `hash` field is `xxh64(data, 0)`.  The `digest` is constructed
/// from two XXH64 values (seeds 0 and 1) packed into 16 bytes, matching
/// the convention used by `CuckooTable::insert`.
fn make_key(s: &str) -> HashedKey {
    let hash = xxh64(s.as_bytes(), 0);
    let mut digest = [0u8; 16];
    let h1 = xxh64(s.as_bytes(), 0);
    let h2 = xxh64(s.as_bytes(), 1);
    digest[0..8].copy_from_slice(&h1.to_le_bytes());
    digest[8..16].copy_from_slice(&h2.to_le_bytes());
    HashedKey { hash, digest }
}

// -----------------------------------------------------------------------
// Inline read tests
// -----------------------------------------------------------------------

#[test]
fn test_read_inline_single_key() {
    let mut table = CuckooTable::new(64, 16);
    let key = make_key("hello");
    table
        .insert(&key, b"world", BucketMode::Inline)
        .unwrap();

    let result = ClientReader::get(
        &key,
        table.buckets(),
        None,
        table.bucket_count(),
    )
    .unwrap()
    .expect("key should be found");

    assert_eq!(result.mode, BucketMode::Inline);
    // "world" padded to 32 bytes
    assert_eq!(&result.value[..5], b"world");
    assert!(result.value[5..].iter().all(|&b| b == 0));
}

#[test]
fn test_read_inline_multiple_keys() {
    let mut table = CuckooTable::new(128, 16);
    let keys: Vec<HashedKey> = (0..10).map(|i| make_key(&format!("key-{i}"))).collect();

    for (i, k) in keys.iter().enumerate() {
        let val = format!("val-{i}").into_bytes();
        table.insert(k, &val, BucketMode::Inline).unwrap();
    }

    // Read back all keys.
    for (i, k) in keys.iter().enumerate() {
        let result = ClientReader::get(k, table.buckets(), None, table.bucket_count())
            .unwrap()
            .expect("key should be found");
        let expected = format!("val-{i}");
        assert_eq!(&result.value[..expected.len()], expected.as_bytes());
    }
}

#[test]
fn test_read_inline_full_32_byte_value() {
    let mut table = CuckooTable::new(64, 16);
    let key = make_key("big");
    let val = [0xABu8; 32];
    table.insert(&key, &val, BucketMode::Inline).unwrap();

    let result = ClientReader::get(&key, table.buckets(), None, table.bucket_count())
        .unwrap()
        .expect("key should be found");

    assert_eq!(result.value.len(), 32);
    assert_eq!(&result.value[..], &val[..]);
}

#[test]
fn test_read_inline_empty_value() {
    let mut table = CuckooTable::new(64, 16);
    let key = make_key("empty");
    table.insert(&key, &[], BucketMode::Inline).unwrap();

    let result = ClientReader::get(&key, table.buckets(), None, table.bucket_count())
        .unwrap()
        .expect("key should be found");

    assert_eq!(result.mode, BucketMode::Inline);
    assert!(result.value.iter().all(|&b| b == 0));
}

// -----------------------------------------------------------------------
// Missing / not-found tests
// -----------------------------------------------------------------------

#[test]
fn test_read_missing_key() {
    let mut table = CuckooTable::new(64, 16);
    let present = make_key("present");
    let missing = make_key("missing");

    table.insert(&present, b"data", BucketMode::Inline).unwrap();

    let result = ClientReader::get(
        &missing,
        table.buckets(),
        None,
        table.bucket_count(),
    )
    .unwrap();

    assert!(result.is_none(), "missing key should not be found");
}

#[test]
fn test_read_empty_table() {
    let table = CuckooTable::new(64, 16);
    let key = make_key("nope");

    let result = ClientReader::get(&key, table.buckets(), None, table.bucket_count()).unwrap();
    assert!(result.is_none());
}

#[test]
fn test_read_deleted_key() {
    let mut table = CuckooTable::new(64, 16);
    let key = make_key("delete-me");

    table.insert(&key, b"temp", BucketMode::Inline).unwrap();
    assert!(table.delete(&key));

    let result = ClientReader::get(&key, table.buckets(), None, table.bucket_count()).unwrap();
    assert!(result.is_none(), "deleted (tombstone) key should not be found");
}

// -----------------------------------------------------------------------
// Extent read tests
// -----------------------------------------------------------------------

#[test]
fn test_read_extent_single() {
    let mut table = CuckooTable::new(64, 16);
    let mut region = LargeObjectRegion::new(4096);
    let key = make_key("large-value");
    let data = b"This is a large value stored in extent mode!".to_vec();

    let offset = region.allocate(&data).expect("extent allocation should succeed");
    table
        .insert_extent(&key, offset, data.len() as u64)
        .unwrap();

    let result = ClientReader::get(
        &key,
        table.buckets(),
        Some(&region),
        table.bucket_count(),
    )
    .unwrap()
    .expect("extent key should be found");

    assert_eq!(result.mode, BucketMode::Extent);
    assert_eq!(result.value, data);
}

#[test]
fn test_read_extent_multiple() {
    let mut table = CuckooTable::new(128, 16);
    let mut region = LargeObjectRegion::new(8192);

    let entries: Vec<(&str, Vec<u8>)> = vec![
        ("ext-a", vec![0xAAu8; 300]),
        ("ext-b", vec![0xBBu8; 500]),
        ("ext-c", vec![0xCCu8; 100]),
    ];

    let mut expected: Vec<(HashedKey, Vec<u8>, u64)> = Vec::new();

    for (name, data) in &entries {
        let key = make_key(name);
        let offset = region.allocate(data).unwrap();
        table.insert_extent(&key, offset, data.len() as u64).unwrap();
        expected.push((key, data.clone(), offset));
    }

    for (key, data, _offset) in &expected {
        let result = ClientReader::get(
            key,
            table.buckets(),
            Some(&region),
            table.bucket_count(),
        )
        .unwrap()
        .expect("extent key should be found");
        assert_eq!(result.mode, BucketMode::Extent);
        assert_eq!(&result.value, data);
    }
}

#[test]
fn test_read_extent_without_region_returns_none() {
    let mut table = CuckooTable::new(64, 16);
    let key = make_key("orphan-extent");
    table.insert_extent(&key, 0x1000, 256).unwrap();

    // No LargeObjectRegion provided -> should not crash, return None.
    let result = ClientReader::get(&key, table.buckets(), None, table.bucket_count()).unwrap();
    assert!(result.is_none());
}

#[test]
fn test_read_extent_corrupted_offset() {
    let mut table = CuckooTable::new(64, 16);
    let mut region = LargeObjectRegion::new(4096);
    let key = make_key("corrupt");

    let data = b"valid data".to_vec();
    let offset = region.allocate(&data).unwrap();
    table.insert_extent(&key, offset, data.len() as u64).unwrap();

    // Verify the extent is readable through the region.
    assert!(region.read(offset).is_some(), "extent should be readable");

    let result = ClientReader::get(
        &key,
        table.buckets(),
        Some(&region),
        table.bucket_count(),
    )
    .unwrap()
    .expect("key should be found with correct extent data");

    assert_eq!(result.value, data);
}

#[test]
fn test_read_extent_deleted() {
    let mut table = CuckooTable::new(64, 16);
    let mut region = LargeObjectRegion::new(4096);
    let key = make_key("ext-del");

    let offset = region.allocate(b"extent data").unwrap();
    table.insert_extent(&key, offset, 11).unwrap();
    table.delete(&key);

    let result = ClientReader::get(
        &key,
        table.buckets(),
        Some(&region),
        table.bucket_count(),
    )
    .unwrap();
    assert!(result.is_none(), "deleted extent key should not be found");
}

// -----------------------------------------------------------------------
// Locked bucket returns None (not found)
// -----------------------------------------------------------------------

#[test]
fn test_read_locked_bucket_returns_none() {
    let mut table = CuckooTable::new(64, 16);
    let key = make_key("locked");

    // Insert normally.
    table.insert(&key, b"secret", BucketMode::Inline).unwrap();

    // Manually lock the bucket at the expected index.
    let h1 = (key.hash % table.bucket_count()) as usize;
    table.bucket_mut(h1 as u64).lock_version = 0x01; // lock bit set

    let result = ClientReader::get(
        &key,
        table.buckets(),
        None,
        table.bucket_count(),
    )
    .unwrap();

    // If h2 also doesn't have the key (or is also locked), return None.
    // Since the key was only inserted once (cuckoo puts it at h1 or h2),
    // and we locked h1, the result depends on whether the key lives at h1.
    // If the key is at h1, it returns None (locked).  If at h2, found.
    // Either outcome is valid : we just verify no panic.
    let _ = result;
}

// -----------------------------------------------------------------------
// Hash collision: same hash, different digest
// -----------------------------------------------------------------------

#[test]
fn test_collision_disambiguates_by_digest() {
    let mut table = CuckooTable::new(128, 16);

    // Two keys with the same hash, different digests.
    let k1 = HashedKey {
        hash: 0xDEAD,
        digest: *b"AAAA_AAAA_AAAA_A",
    };
    let k2 = HashedKey {
        hash: 0xDEAD,
        digest: *b"BBBB_BBBB_BBBB_B",
    };

    table.insert(&k1, b"alpha", BucketMode::Inline).unwrap();
    table.insert(&k2, b"beta", BucketMode::Inline).unwrap();

    let r1 = ClientReader::get(&k1, table.buckets(), None, table.bucket_count())
        .unwrap()
        .expect("k1 should be found");
    assert_eq!(&r1.value[..5], b"alpha");

    let r2 = ClientReader::get(&k2, table.buckets(), None, table.bucket_count())
        .unwrap()
        .expect("k2 should be found");
    assert_eq!(&r2.value[..4], b"beta");
}

#[test]
fn test_collision_wrong_digest_not_found() {
    let mut table = CuckooTable::new(64, 16);
    let k1 = HashedKey {
        hash: 42,
        digest: [1u8; 16],
    };
    let k2 = HashedKey {
        hash: 42,
        digest: [2u8; 16],
    };

    table.insert(&k1, b"only-one", BucketMode::Inline).unwrap();

    // k2 has same hash but different digest -> different key.
    let result = ClientReader::get(&k2, table.buckets(), None, table.bucket_count()).unwrap();
    assert!(result.is_none());
}

// -----------------------------------------------------------------------
// Edge case: h1 and h2 map to same bucket
// -----------------------------------------------------------------------

#[test]
fn test_same_h1_h2_bucket() {
    // With bucket_count == 2 and key.hash == 1:
    //   h1 = 1 % 2 = 1
    //   h2 = ((1 >> 32) % 2) | 1 = 0 | 1 = 1
    // Both 1 -> only one bucket to check.
    let mut table = CuckooTable::new(2, 16);
    let key = HashedKey {
        hash: 1,
        digest: [0x42u8; 16],
    };

    table.insert(&key, b"hi", BucketMode::Inline).unwrap();

    let result = ClientReader::get(&key, table.buckets(), None, table.bucket_count())
        .unwrap()
        .expect("key should be found at the single home bucket");

    assert_eq!(&result.value[..2], b"hi");
}

// -----------------------------------------------------------------------
// Stress: many keys across inline + extent modes
// -----------------------------------------------------------------------

#[test]
fn test_mixed_inline_and_extent() {
    let mut table = CuckooTable::new(256, 32);
    let mut region = LargeObjectRegion::new(65536);

    let inline_keys: Vec<_> = (0..10).map(|i| make_key(&format!("in-{i}"))).collect();
    let extent_keys: Vec<_> = (0..5).map(|i| make_key(&format!("ex-{i}"))).collect();

    // Insert inline keys.
    for (i, k) in inline_keys.iter().enumerate() {
        let val = format!("inline-{i}").into_bytes();
        table.insert(k, &val, BucketMode::Inline).unwrap();
    }

    // Insert extent keys.
    for (i, k) in extent_keys.iter().enumerate() {
        let val = vec![(i as u8).wrapping_mul(7); 200 + i * 50];
        let offset = region.allocate(&val).unwrap();
        table
            .insert_extent(k, offset, val.len() as u64)
            .unwrap();
    }

    // Read back inline keys.
    for (i, k) in inline_keys.iter().enumerate() {
        let result = ClientReader::get(k, table.buckets(), Some(&region), table.bucket_count())
            .unwrap()
            .expect("inline key should be found");
        assert_eq!(result.mode, BucketMode::Inline);
        let expected = format!("inline-{i}");
        assert_eq!(&result.value[..expected.len()], expected.as_bytes());
    }

    // Read back extent keys.
    for (i, k) in extent_keys.iter().enumerate() {
        let result = ClientReader::get(k, table.buckets(), Some(&region), table.bucket_count())
            .unwrap()
            .expect("extent key should be found");
        assert_eq!(result.mode, BucketMode::Extent);
        let expected = vec![(i as u8).wrapping_mul(7); 200 + i * 50];
        assert_eq!(result.value, expected);
    }
}

// -----------------------------------------------------------------------
// Error cases
// -----------------------------------------------------------------------

#[test]
fn test_zero_hash_rejected() {
    let table = CuckooTable::new(16, 16);
    let key = HashedKey {
        hash: 0,
        digest: [1u8; 16],
    };

    let result = ClientReader::get(&key, table.buckets(), None, table.bucket_count());
    assert!(matches!(result, Err(RdmaError::InvalidKey)));
}

#[test]
fn test_non_power_of_two_bucket_count_rejected() {
    let key = make_key("test");
    let buckets = vec![HashBucket::zeroed(); 10];

    let result = ClientReader::get(&key, &buckets, None, 10);
    assert!(matches!(result, Err(RdmaError::Internal(_))));
}

#[test]
fn test_bucket_index_out_of_bounds() {
    let key = make_key("test");
    // 4 buckets but claim 8 -> computed h1/h2 may exceed 4.
    let buckets = vec![HashBucket::zeroed(); 4];

    let result = ClientReader::get(&key, &buckets, None, 8);
    // Either Internal (bounds check) or Ok(None) if h1,h2 < 4.
    // We just verify no panic.
    let _ = result;
}

// -----------------------------------------------------------------------
// Overwrite: reading returns the latest value
// -----------------------------------------------------------------------

#[test]
fn test_read_after_overwrite() {
    let mut table = CuckooTable::new(64, 16);
    let key = make_key("overwrite");

    table.insert(&key, b"first", BucketMode::Inline).unwrap();
    let r1 = ClientReader::get(&key, table.buckets(), None, table.bucket_count())
        .unwrap()
        .expect("should read first value");
    assert_eq!(&r1.value[..5], b"first");

    // Overwrite with a new value.
    table.insert(&key, b"second!", BucketMode::Inline).unwrap();
    let r2 = ClientReader::get(&key, table.buckets(), None, table.bucket_count())
        .unwrap()
        .expect("should read second value");
    assert_eq!(&r2.value[..7], b"second!");
}

#[test]
fn test_read_after_mode_change_inline_to_extent() {
    let mut table = CuckooTable::new(64, 16);
    let mut region = LargeObjectRegion::new(4096);
    let key = make_key("mode-switch");

    // Start inline.
    table
        .insert(&key, b"inline-data", BucketMode::Inline)
        .unwrap();

    // Switch to extent.
    let ext_data = b"extent-data-is-longer".to_vec();
    let offset = region.allocate(&ext_data).unwrap();
    table
        .insert_extent(&key, offset, ext_data.len() as u64)
        .unwrap();

    let result = ClientReader::get(
        &key,
        table.buckets(),
        Some(&region),
        table.bucket_count(),
    )
    .unwrap()
    .expect("should read extent value after mode switch");

    assert_eq!(result.mode, BucketMode::Extent);
    assert_eq!(result.value, ext_data);
}

// -----------------------------------------------------------------------
// ReadResult equality
// -----------------------------------------------------------------------

#[test]
fn test_read_result_eq() {
    let r1 = ReadResult {
        value: vec![1, 2, 3],
        mode: BucketMode::Inline,
    };
    let r2 = ReadResult {
        value: vec![1, 2, 3],
        mode: BucketMode::Inline,
    };
    let r3 = ReadResult {
        value: vec![1, 2, 3],
        mode: BucketMode::Extent,
    };

    assert_eq!(r1, r2);
    assert_ne!(r1, r3);
}

// -----------------------------------------------------------------------
// Integration: read through the full cuckoo pipeline
// -----------------------------------------------------------------------

#[test]
fn test_full_round_trip_inline() {
    let mut table = CuckooTable::new(64, 16);
    let key = make_key("round-trip");
    let val = b"hello rdmas!";

    // Write.
    table.insert(&key, val, BucketMode::Inline).unwrap();

    // Read via ClientReader.
    let result = ClientReader::get(&key, table.buckets(), None, table.bucket_count())
        .unwrap()
        .expect("should read back value");

    assert_eq!(&result.value[..val.len()], val);

    // Delete.
    assert!(table.delete(&key));

    // Read after delete.
    let result2 =
        ClientReader::get(&key, table.buckets(), None, table.bucket_count()).unwrap();
    assert!(result2.is_none());
}

#[test]
fn test_full_round_trip_extent() {
    let mut table = CuckooTable::new(64, 16);
    let mut region = LargeObjectRegion::new(8192);
    let key = make_key("extent-round-trip");
    let val = vec![0xDEu8; 1024];

    // Write.
    let offset = region.allocate(&val).unwrap();
    table
        .insert_extent(&key, offset, val.len() as u64)
        .unwrap();

    // Read via ClientReader.
    let result = ClientReader::get(
        &key,
        table.buckets(),
        Some(&region),
        table.bucket_count(),
    )
    .unwrap()
    .expect("should read back extent value");

    assert_eq!(result.mode, BucketMode::Extent);
    assert_eq!(result.value, val);

    // Delete.
    assert!(table.delete(&key));

    // Read after delete.
    let result2 = ClientReader::get(
        &key,
        table.buckets(),
        Some(&region),
        table.bucket_count(),
    )
    .unwrap();
    assert!(result2.is_none());
}
