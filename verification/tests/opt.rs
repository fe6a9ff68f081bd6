//! Fast reads, batched writes and performance counters.

use rdmas::client::opt::{BatchBuilder, OptimizedClientReader, PerfStats};
use rdmas::client::read::ClientReader;
use rdmas::engine::cuckoo::CuckooTable;
use rdmas::engine::extent::LargeObjectRegion;
use rdmas::engine::layout::{BucketMode, HashBucket, HashedKey};
use xxhash_rust::xxh64::xxh64;

/// Build a `HashedKey` from a string using XXH64 + 16-byte digest,
/// matching the convention used by `CuckooTable::insert`.
fn make_key(s: &str) -> HashedKey {
    let hash = xxh64(s.as_bytes(), 0);
    let mut digest = [0u8; 16];
    let h1 = xxh64(s.as_bytes(), 0);
    let h2 = xxh64(s.as_bytes(), 1);
    digest[0..8].copy_from_slice(&h1.to_le_bytes());
    digest[8..16].copy_from_slice(&h2.to_le_bytes());
    HashedKey { hash, digest }
}

/// A fraction as a floating point number; 0 where there is none.
fn ratio(fraction: Option<(u64, u64)>) -> f64 {
    match fraction {
        Some((n, d)) => n as f64 / d as f64,
        None => 0.0,
    }
}

// -----------------------------------------------------------------------
// OptimizedClientReader tests
// -----------------------------------------------------------------------

#[test]
fn test_get_fast_inline_key_found() {
    let mut table = CuckooTable::new(64, 16);
    let key = make_key("fastpath");
    table
        .insert(&key, b"inline-data", BucketMode::Inline)
        .unwrap();

    let result =
        OptimizedClientReader::get_fast(&key, table.buckets(), None, table.bucket_count());

    assert!(result.is_some(), "key should be found");
    let (value, mode) = result.unwrap();
    assert_eq!(mode, BucketMode::Inline);
    assert_eq!(&value[..11], b"inline-data");
}

#[test]
fn test_get_fast_key_not_found() {
    let table = CuckooTable::new(64, 16);
    let key = make_key("missing");

    let result =
        OptimizedClientReader::get_fast(&key, table.buckets(), None, table.bucket_count());

    assert!(result.is_none(), "missing key should not be found");
}

#[test]
fn test_get_fast_extent_key_found() {
    let mut table = CuckooTable::new(64, 16);
    let mut region = LargeObjectRegion::new(4096);
    let key = make_key("large-key");
    let data = b"this is a large extent value".to_vec();

    let offset = region.allocate(&data).unwrap();
    table
        .insert_extent(&key, offset, data.len() as u64)
        .unwrap();

    let result = OptimizedClientReader::get_fast(
        &key,
        table.buckets(),
        Some(&region),
        table.bucket_count(),
    );

    assert!(result.is_some(), "extent key should be found");
    let (value, mode) = result.unwrap();
    assert_eq!(mode, BucketMode::Extent);
    assert_eq!(value, data);
}

// -----------------------------------------------------------------------
// BatchBuilder tests
// -----------------------------------------------------------------------

#[test]
fn test_batch_builder_new_is_empty() {
    let builder = BatchBuilder::new(4);
    assert!(builder.is_empty());
    assert_eq!(builder.len(), 0);
    assert!(!builder.is_full());
}

#[test]
fn test_batch_builder_add_and_count() {
    let mut builder = BatchBuilder::new(4);
    for i in 0u32..4 {
        builder.add(
            make_key(&format!("k{i}")),
            i.to_le_bytes().to_vec(),
            BucketMode::Inline,
        );
    }

    assert_eq!(builder.len(), 4);
    assert!(builder.is_full());
    assert!(!builder.is_empty());
}

#[test]
fn test_batch_builder_exceeds_capacity_becomes_full() {
    let mut builder = BatchBuilder::new(2);
    builder.add(make_key("a"), vec![1], BucketMode::Inline);
    assert!(!builder.is_full());
    builder.add(make_key("b"), vec![2], BucketMode::Inline);
    assert!(builder.is_full());
    builder.add(make_key("c"), vec![3], BucketMode::Inline);
    assert!(builder.is_full()); // still full
    assert_eq!(builder.len(), 3);
}

#[test]
fn test_batch_builder_flush_to_empty_buckets() {
    let mut buckets = vec![HashBucket::zeroed(); 8];
    let bucket_count = buckets.len() as u64;
    let mut builder = BatchBuilder::new(4);

    let key0 = make_key("a");
    let key1 = make_key("b");
    let key2 = make_key("c");

    builder.add(key0.clone(), b"val-a".to_vec(), BucketMode::Inline);
    builder.add(key1.clone(), b"val-b".to_vec(), BucketMode::Inline);
    builder.add(key2.clone(), b"val-c".to_vec(), BucketMode::Inline);

    let flushed = builder.flush_local(&mut buckets, None, bucket_count);

    assert_eq!(flushed, 3);
    assert!(builder.is_empty());
    assert_eq!(builder.len(), 0);

    // Verify keys are findable via ClientReader.
    for (key, expected) in &[
        (&key0, b"val-a" as &[u8]),
        (&key1, b"val-b"),
        (&key2, b"val-c"),
    ] {
        let result = ClientReader::get(key, &buckets, None, bucket_count)
            .unwrap()
            .expect("key should be found");
        assert_eq!(&result.value[..expected.len()], *expected);
    }
}

#[test]
fn test_batch_builder_flush_returns_zero_when_empty() {
    let mut buckets = vec![HashBucket::zeroed(); 8];
    let bucket_count = buckets.len() as u64;
    let mut builder = BatchBuilder::new(4);

    let flushed = builder.flush_local(&mut buckets, None, bucket_count);
    assert_eq!(flushed, 0);
}

#[test]
fn test_batch_builder_flush_with_extent() {
    let mut buckets = vec![HashBucket::zeroed(); 8];
    let bucket_count = buckets.len() as u64;
    let mut region = LargeObjectRegion::new(4096);
    let mut builder = BatchBuilder::new(4);

    let key = make_key("extent-key");
    let data = vec![0xABu8; 200];

    builder.add(key.clone(), data.clone(), BucketMode::Extent);

    let flushed = builder.flush_local(&mut buckets, Some(&mut region), bucket_count);

    assert_eq!(flushed, 1);
    assert!(builder.is_empty());

    // Read back via ClientReader + region.
    let result =
        ClientReader::get(&key, &buckets, Some(&region), bucket_count)
            .unwrap()
            .expect("extent key should be found");
    assert_eq!(result.mode, BucketMode::Extent);
    assert_eq!(result.value, data);
}

#[test]
fn test_batch_builder_flush_partial_success_table_full() {
    // Create a tiny 4-bucket table; insert many keys to hit TableFull.
    let mut buckets = vec![HashBucket::zeroed(); 4];
    let bucket_count = buckets.len() as u64;
    let mut builder = BatchBuilder::new(8);

    for i in 0..32u64 {
        let hash = 0x1000 + i;
        let mut digest = [0u8; 16];
        digest[0..8].copy_from_slice(&hash.to_le_bytes());
        let key = HashedKey { hash, digest };
        builder.add(key, hash.to_le_bytes().to_vec(), BucketMode::Inline);
    }

    let flushed = builder.flush_local(&mut buckets, None, bucket_count);
    // With 4 buckets and aggressive kick chains, some entries succeed
    // but not all 32 (limited by MAX_KICK and table capacity).
    assert!(flushed < 32, "should not fit all 32 entries in 4 buckets");
}

#[test]
fn test_batch_builder_is_full_at_exact_capacity() {
    let mut builder = BatchBuilder::new(1);
    assert!(!builder.is_full());
    builder.add(make_key("x"), vec![0], BucketMode::Inline);
    assert!(builder.is_full());
}

// -----------------------------------------------------------------------
// PerfStats tests
// -----------------------------------------------------------------------

#[test]
fn test_perf_stats_h1_hit_ratio() {
    let stats = PerfStats {
        h1_hits: 80,
        h2_hits: 20,
        ..Default::default()
    };
    assert!((ratio(stats.h1_hit_fraction()) - 0.8).abs() < 0.01);
}

#[test]
fn test_perf_stats_read_amplification() {
    let stats = PerfStats {
        h1_hits: 80,
        h2_hits: 20,
        ..Default::default()
    };
    // avg = (80*1 + 20*2) / 100 = 1.2
    assert!((ratio(stats.probe_fraction()) - 1.2).abs() < 0.01);
}

#[test]
fn test_perf_stats_empty() {
    let stats = PerfStats::default();
    assert_eq!(ratio(stats.h1_hit_fraction()), 0.0);
    assert_eq!(ratio(stats.probe_fraction()), 0.0);
    assert_eq!(ratio(stats.completion_fraction()), 0.0);
}

#[test]
fn test_perf_stats_completions_per_poll() {
    let stats = PerfStats {
        poll_iters: 100,
        completions: 250,
        ..Default::default()
    };
    assert!((ratio(stats.completion_fraction()) - 2.5).abs() < 0.01);
}

#[test]
fn test_perf_stats_completions_per_poll_zero_iters() {
    let stats = PerfStats {
        completions: 10,
        ..Default::default()
    };
    assert_eq!(ratio(stats.completion_fraction()), 0.0);
}

#[test]
fn test_perf_stats_all_h1() {
    let stats = PerfStats {
        h1_hits: 100,
        ..Default::default()
    };
    assert!((ratio(stats.h1_hit_fraction()) - 1.0).abs() < 0.01);
    assert!((ratio(stats.probe_fraction()) - 1.0).abs() < 0.01);
}

#[test]
fn test_perf_stats_all_h2() {
    let stats = PerfStats {
        h2_hits: 100,
        ..Default::default()
    };
    assert!((ratio(stats.h1_hit_fraction()) - 0.0).abs() < 0.01);
    // avg = (0*1 + 100*2) / 100 = 2.0
    assert!((ratio(stats.probe_fraction()) - 2.0).abs() < 0.01);
}

#[test]
fn test_perf_stats_clone() {
    let stats = PerfStats {
        reads: 42,
        ..Default::default()
    };
    let cloned = stats.clone();
    assert_eq!(cloned.reads, 42);
}

#[test]
fn flushed_extents_read_back() {
    let mut buckets = vec![HashBucket::zeroed(); 16];
    let mut region = LargeObjectRegion::new(4096);
    let earlier = region.allocate(b"earlier").unwrap();
    let mut builder = BatchBuilder::new(4);
    let (a, b) = (make_key("first"), make_key("second"));
    builder.add(a.clone(), vec![1u8; 100], BucketMode::Extent);
    builder.add(b.clone(), vec![2u8; 200], BucketMode::Extent);
    assert_eq!(builder.flush_local(&mut buckets, Some(&mut region), 16), 2);
    for (key, expected) in [(a, vec![1u8; 100]), (b, vec![2u8; 200])] {
        let bucket = buckets.iter().find(|x| x.key_hash == key.hash).unwrap();
        let (offset, length) = bucket.extent_ref();
        assert_eq!(length as usize, expected.len());
        assert_eq!(region.read(offset).unwrap(), expected);
    }
    assert_eq!(region.read(earlier).unwrap(), b"earlier");
}
