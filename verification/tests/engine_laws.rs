//! Laws of the engine on concrete values.

use rdmas::engine::concurrency::{
    accepts_checksum, acquire_step, force_takeover_at, is_lease_expired, now_ms, optimistic_read,
    release_lock, try_acquire_lock, verify_extent_checksum, verify_read, wrapped_ms, AcquireStep,
    AtomicBucket, TakeoverResult,
};
use rdmas::engine::cuckoo::{is_power_of_two, CuckooError, CuckooTable};
use rdmas::engine::extent::{align_up, extent_total, ExtentError, LargeObjectRegion};
use rdmas::engine::gc::{least_of, EpochGc};
use rdmas::engine::layout::{BucketMode, ExtentHeaderV2, HashBucket, HashedKey};
use rdmas::engine::lru::LruTracker;
use rdmas::engine::slab::SlabAllocator;
use xxhash_rust::xxh64::xxh64;

fn key(hash: u64, seed: u8) -> HashedKey {
    HashedKey { hash, digest: [seed; 16] }
}

// -----------------------------------------------------------------------
// Buckets
// -----------------------------------------------------------------------

#[test]
fn bucket_bytes_read_back() {
    let mut b = HashBucket::zeroed();
    b.lock_version = 0x0123_4567_89AB_CDEF;
    b.key_hash = 42;
    b.key_or_digest = [9; 16];
    b.set_extent_ref(0x1000, 77);
    let bytes = b.to_bytes();
    assert_eq!(bytes.len(), 64);
    assert_eq!(&bytes[0..8], &[0xEF, 0xCD, 0xAB, 0x89, 0x67, 0x45, 0x23, 0x01]);
    assert_eq!(bytes[8], 42);
    let back = HashBucket::from_bytes(&bytes);
    assert_eq!(back.lock_version, b.lock_version);
    assert_eq!(back.key_hash, 42);
    assert_eq!(back.key_or_digest, [9; 16]);
    assert_eq!(back.extent_ref(), (0x1000, 77));
}

#[test]
fn inline_value_is_padded_with_zeros() {
    let mut table = CuckooTable::new(8, 4);
    table.insert(&key(5, 1), b"abc", BucketMode::Inline).unwrap();
    let mut expected = [0u8; 32];
    expected[..3].copy_from_slice(b"abc");
    assert_eq!(table.lookup(&key(5, 1)).unwrap().value, expected);
    let mut b = HashBucket::zeroed();
    b.set_inline_value(&expected);
    assert_eq!(&b.inline_value()[..], &expected[..]);
}

// -----------------------------------------------------------------------
// Cuckoo table
// -----------------------------------------------------------------------

#[test]
fn powers_of_two() {
    assert!(is_power_of_two(1) && is_power_of_two(64) && is_power_of_two(1 << 63));
    assert!(!is_power_of_two(0) && !is_power_of_two(3) && !is_power_of_two(u64::MAX));
}

#[test]
fn home_buckets_of_a_hash() {
    let table = CuckooTable::new(16, 4);
    assert_eq!(table.h1(0x5_0000_0012), 2);
    // The second bucket comes from the upper half of the hash, and is odd.
    assert_eq!(table.h2(0x6_0000_0012), 7);
    assert_eq!(table.h2(0x17_0000_0000), 7);
}

#[test]
fn a_new_table_holds_nothing() {
    let table = CuckooTable::new(8, 4);
    for hash in 1..50u64 {
        assert!(table.lookup(&key(hash, 1)).is_none());
    }
}

#[test]
fn insert_then_find_keeps_the_others() {
    let mut table = CuckooTable::new(64, 16);
    for i in 1..=20u64 {
        let k = key(i * 0x1_0000_0007, i as u8);
        table.insert(&k, &[i as u8], BucketMode::Inline).unwrap();
        for j in 1..=i {
            let other = key(j * 0x1_0000_0007, j as u8);
            assert_eq!(table.lookup(&other).unwrap().value[0], j as u8);
        }
    }
}

#[test]
fn delete_removes_one_key_only() {
    let mut table = CuckooTable::new(64, 16);
    let a = key(3, 1);
    let b = key(4, 2);
    table.insert(&a, b"a", BucketMode::Inline).unwrap();
    table.insert(&b, b"b", BucketMode::Inline).unwrap();
    assert!(table.delete(&a));
    assert!(table.lookup(&a).is_none());
    assert!(!table.delete(&a));
    assert_eq!(table.lookup(&b).unwrap().value[0], b'b');
}

#[test]
fn zero_hash_is_an_invalid_key() {
    let mut table = CuckooTable::new(8, 4);
    assert_eq!(
        table.insert(&key(0, 1), b"x", BucketMode::Inline),
        Err(CuckooError::InvalidKey)
    );
}

#[test]
fn extent_body_reads_back_from_the_table() {
    let mut table = CuckooTable::new(8, 4);
    let k = key(5, 1);
    table.insert_extent(&k, 0xABCD_0000_1234, 999).unwrap();
    let found = table.lookup(&k).unwrap();
    assert_eq!(found.extent_offset, 0xABCD_0000_1234);
    assert_eq!(found.extent_length, 999);
}

// -----------------------------------------------------------------------
// Large objects
// -----------------------------------------------------------------------

#[test]
fn sizes_are_rounded_to_eight() {
    assert_eq!((align_up(0, 8), align_up(1, 8), align_up(8, 8), align_up(9, 8)), (0, 8, 8, 16));
    assert_eq!((extent_total(0), extent_total(1), extent_total(8)), (32, 40, 40));
}

#[test]
fn allocated_extents_do_not_disturb_each_other() {
    let mut region = LargeObjectRegion::new(4096);
    let mut kept = Vec::new();
    for i in 0..10u8 {
        let data = vec![i; 10 + i as usize];
        kept.push((region.allocate(&data).unwrap(), data));
        for (at, data) in &kept {
            assert_eq!(region.read(*at).as_ref(), Some(data));
        }
    }
    region.free(kept[3].0).unwrap();
    assert!(region.read(kept[3].0).is_none());
    for (i, (at, data)) in kept.iter().enumerate() {
        if i != 3 {
            assert_eq!(region.read(*at).as_ref(), Some(data));
        }
    }
}

#[test]
fn freed_space_of_the_same_size_is_taken_again() {
    let mut region = LargeObjectRegion::new(1024);
    let a = region.allocate(&[1; 50]).unwrap();
    region.allocate(&[2; 50]).unwrap();
    region.free(a).unwrap();
    assert_eq!(region.allocate(&[3; 50]), Some(a));
}

#[test]
fn an_extent_cannot_be_freed_twice() {
    let mut region = LargeObjectRegion::new(1024);
    let a = region.allocate(b"once").unwrap();
    assert_eq!(region.free(a), Ok(()));
    let second = region.free(a);
    assert!(second.is_err());
    assert_ne!(second, Ok(()));
}

#[test]
fn offsets_outside_the_region_are_refused() {
    let mut region = LargeObjectRegion::new(128);
    assert_eq!(region.free(4096), Err(ExtentError::NotAllocated));
    assert_eq!(region.mark_for_gc(u64::MAX - 3, 1), Err(ExtentError::InvalidOffset));
    assert!(region.read(u64::MAX - 3).is_none());
}

#[test]
fn sweep_frees_what_was_marked_before_the_epoch() {
    let mut region = LargeObjectRegion::new(4096);
    let a = region.allocate(b"old").unwrap();
    let b = region.allocate(b"newer").unwrap();
    let c = region.allocate(b"live").unwrap();
    region.mark_for_gc(a, 5).unwrap();
    region.mark_for_gc(b, 10).unwrap();
    assert_eq!(region.sweep(10), 1);
    assert!(region.read(a).is_none());
    assert!(region.read(b).is_some());
    assert_eq!(region.read(c).unwrap(), b"live");
    assert_eq!(region.sweep(11), 1);
    assert!(region.read(b).is_none());
}

#[test]
fn checksum_of_a_checksummed_extent() {
    let mut region = LargeObjectRegion::new(1024);
    let at = region.write_extent_v2_checksummed(b"").unwrap();
    assert_eq!(region.read_checksum(at), Some(0xEF46_DB37_51D8_E999));
    let at = region.write_extent_v2_checksummed(b"payload").unwrap();
    assert_eq!(region.read_checksum(at), Some(xxh64(b"payload", 0)));
    let plain = region.allocate(b"payload").unwrap();
    assert_eq!(region.read(plain).unwrap(), b"payload");
}

#[test]
fn used_bytes_count_the_footprints() {
    let mut region = LargeObjectRegion::new(1024);
    assert_eq!(region.used_bytes(), 0);
    let a = region.allocate(&[0; 10]).unwrap();
    region.allocate(&[0; 100]).unwrap();
    assert_eq!(region.used_bytes(), 48 + 136);
    region.free(a).unwrap();
    assert_eq!(region.used_bytes(), 136);
}

// -----------------------------------------------------------------------
// Slab
// -----------------------------------------------------------------------

#[test]
fn chunks_are_disjoint_and_counted() {
    let mut slab = SlabAllocator::new(100, 30);
    assert_eq!(slab.total_chunks(), 3);
    let got: Vec<u64> = (0..3).map(|_| slab.allocate_chunk().unwrap()).collect();
    assert_eq!(got, vec![0, 1, 2]);
    assert_eq!(slab.allocate_chunk(), None);
    assert_eq!((slab.chunk_offset(0), slab.chunk_offset(1), slab.chunk_offset(2)), (0, 32, 64));
    slab.free_chunk(1);
    assert_eq!(slab.allocated_count() + slab.free_count(), 3);
    assert_eq!(slab.allocate_chunk(), Some(1));
}

// -----------------------------------------------------------------------
// Locks
// -----------------------------------------------------------------------

#[test]
fn clock_wraps_at_32_bits() {
    assert_eq!(wrapped_ms(Some(0x1_0000_0005)), 5);
    assert_eq!(wrapped_ms(Some(77)), 77);
    assert_eq!(wrapped_ms(None), 0);
}

#[test]
fn the_clock_moves() {
    let start = now_ms();
    let mut later = now_ms();
    while later == start {
        later = now_ms();
    }
    assert!(later.wrapping_sub(start) < 60_000);
}

#[test]
fn lease_age_is_exact() {
    assert!(!is_lease_expired(1000, 1100, 100));
    assert!(is_lease_expired(1000, 1101, 100));
    assert!(!is_lease_expired(0xFF00_0000 + 7, 7, 100));
}

#[test]
fn acquire_then_release_advances_the_version() {
    let mut b = HashBucket::zeroed();
    let mut ab = AtomicBucket::new(&mut b);
    for round in 0..5u32 {
        assert_eq!(ab.bucket.version(), round);
        try_acquire_lock(&mut ab, BucketMode::Extent).unwrap();
        assert!(ab.bucket.is_locked());
        release_lock(&mut ab, BucketMode::Extent, round);
        assert!(!ab.bucket.is_locked());
    }
}

#[test]
fn a_fresh_lock_blocks_and_an_old_one_yields() {
    let AcquireStep::Cas { new_word } = acquire_step(0, 1000, 1000, BucketMode::Inline) else {
        panic!("a free bucket can be taken");
    };
    assert!(matches!(
        acquire_step(new_word, 1050, 1050, BucketMode::Inline),
        AcquireStep::Blocked
    ));
    assert!(matches!(
        acquire_step(new_word, 1200, 1200, BucketMode::Inline),
        AcquireStep::Cas { .. }
    ));
}

#[test]
fn optimistic_read_detects_a_writer() {
    let mut b = HashBucket::zeroed();
    b.key_hash = 3;
    let guard = optimistic_read(&b).unwrap();
    let mut ab = AtomicBucket::new(&mut b);
    assert!(verify_read(&guard, &ab));
    try_acquire_lock(&mut ab, BucketMode::Inline).unwrap();
    assert!(!verify_read(&guard, &ab));
    release_lock(&mut ab, BucketMode::Inline, 1);
    assert!(!verify_read(&guard, &ab));
}

#[test]
fn takeover_needs_an_expired_lock() {
    let mut b = HashBucket::zeroed();
    assert!(matches!(force_takeover_at(&mut b, 1000, 100), TakeoverResult::NotLocked));
    if let AcquireStep::Cas { new_word } = acquire_step(0, 1000, 1000, BucketMode::Inline) {
        b.lock_version = new_word;
    }
    assert!(matches!(force_takeover_at(&mut b, 1100, 100), TakeoverResult::NotExpired));
    assert!(b.is_locked());
    assert!(matches!(force_takeover_at(&mut b, 1101, 100), TakeoverResult::Success { .. }));
    assert!(!b.is_locked());
}

#[test]
fn payload_checksums() {
    let payload = b"payload";
    let good = ExtentHeaderV2::live(7, xxh64(payload, 0));
    assert!(verify_extent_checksum(&good, payload));
    assert!(!verify_extent_checksum(&good, b"poyload"));
    assert!(!verify_extent_checksum(&ExtentHeaderV2::live(7, 0), payload));
    assert!(!accepts_checksum(0, 0));
}

// -----------------------------------------------------------------------
// Garbage collection and LRU
// -----------------------------------------------------------------------

#[test]
fn least_timestamp() {
    assert_eq!(least_of(&[7, 3, 9]), 3);
    assert_eq!(least_of(&[]), 0);
}

#[test]
fn scheduled_deletions_wait_for_active_clients() {
    let mut gc = EpochGc::new(1000);
    let mut region = LargeObjectRegion::new(1024);
    let at = region.allocate(b"doomed").unwrap();
    gc.schedule_deletion_at(at, 50);
    assert_eq!(gc.pending_count(), 1);
    assert_eq!(gc.sweep(&mut region, 50), 0);
    assert!(region.read(at).is_some());
    gc.schedule_deletion_at(at, 50);
    assert_eq!(gc.sweep(&mut region, 51), 1);
    assert!(region.read(at).is_none());
}

#[test]
fn sweeps_come_at_their_interval() {
    let mut gc = EpochGc::new(100);
    let mut region = LargeObjectRegion::new(256);
    let at = region.allocate(b"x").unwrap();
    gc.schedule_deletion_at(at, 1);
    let now = 1 << 40;
    assert!(gc.is_sweep_due_at(now));
    assert_eq!(gc.maybe_sweep_at(&mut region, 10, now, now, 10), 1);
    assert!(!gc.is_sweep_due_at(now + 99));
    assert!(gc.is_sweep_due_at(now + 100));
}

#[test]
fn candidates_are_the_oldest_keys() {
    let mut lru = LruTracker::new(2);
    for (k, t) in [(10, 5), (11, 1), (12, 9), (13, 3), (11, 7)] {
        lru.record_access_at(k, t);
    }
    // Key 11 was seen again at time 7.
    assert_eq!(lru.select_eviction_candidates(3), vec![13, 10, 11]);
}

#[test]
fn eviction_frees_the_extents_of_old_keys() {
    let mut lru = LruTracker::new(1);
    let mut region = LargeObjectRegion::new(1024);
    let a = region.allocate(b"cold").unwrap();
    let b = region.allocate(b"warm").unwrap();
    lru.record_access_at(a, 1);
    lru.record_access_at(b, 2);
    let mut gc = EpochGc::with_lru(100, lru);
    assert!(gc.lru_tracker().unwrap().needs_eviction());
    assert_eq!(gc.evict_lru(&mut region, 1), 1);
    assert_eq!(gc.lru_tracker().unwrap().evicted_count(), 1);
}

#[test]
fn fast_lookups_do_not_find_deleted_keys() {
    let mut t = CuckooTable::new(16, 16);
    let k = key(0xCAFE, 3);
    assert_eq!(t.insert(&k, b"data", BucketMode::Inline), Ok(()));
    assert_eq!(&t.get_fast(&k).unwrap().0[..4], b"data");
    assert_eq!(&t.lookup_lock_free(&k).unwrap().value[..4], b"data");
    assert!(t.delete(&k));
    assert!(t.lookup(&k).is_none());
    assert!(t.get_fast(&k).is_none());
    assert!(t.lookup_lock_free(&k).is_none());
}

#[test]
fn a_freed_v1_extent_is_unreadable() {
    let mut region = LargeObjectRegion::new(1024);
    let old = region.write_extent_v1(b"legacy payload").unwrap();
    let other = region.allocate(b"other").unwrap();
    assert_eq!(region.read(old).unwrap(), b"legacy payload");
    assert_eq!(region.free(old), Ok(()));
    assert!(region.read(old).is_none());
    assert_eq!(region.allocated_count(), 1);
    assert_eq!(region.read(other).unwrap(), b"other");
    assert_eq!(region.free(old), Err(ExtentError::NotAllocated));
    assert_eq!(region.allocated_count(), 1);
    assert_eq!(region.read(other).unwrap(), b"other");
}

#[test]
fn a_new_collector_waits_for_its_interval() {
    let gc = EpochGc::new_at(1000, None, 5_000);
    assert!(!gc.is_sweep_due_at(5_000));
    assert!(!gc.is_sweep_due_at(5_999));
    assert!(gc.is_sweep_due_at(6_000));
    assert!(gc.lru_tracker().is_none());
    assert_eq!(gc.pending_count(), 0);
}

#[test]
fn eviction_at_a_later_time_reclaims_its_picks() {
    let mut lru = LruTracker::new(1);
    let mut region = LargeObjectRegion::new(1024);
    let a = region.allocate(b"cold").unwrap();
    let b = region.allocate(b"warm").unwrap();
    lru.record_access_at(a, 1);
    lru.record_access_at(b, 2);
    let mut gc = EpochGc::new_at(100, Some(lru), 0);
    assert_eq!(gc.evict_lru_at(&mut region, 1, 50, 60), 1);
    assert!(region.read(a).is_none());
    assert_eq!(region.read(b).unwrap(), b"warm");
    assert_eq!(gc.lru_tracker().unwrap().evicted_count(), 1);
    assert_eq!(gc.pending_count(), 0);
    // A pick that is as new as the oldest active client stays.
    assert_eq!(gc.evict_lru_at(&mut region, 1, 60, 60), 1);
    assert_eq!(region.read(b).unwrap(), b"warm");
}

#[test]
fn a_collector_without_tracker_evicts_nothing() {
    let mut region = LargeObjectRegion::new(1024);
    let a = region.allocate(b"kept").unwrap();
    let mut gc = EpochGc::new_at(100, None, 0);
    assert_eq!(gc.evict_lru_at(&mut region, 5, 1, 9), 0);
    assert_eq!(region.read(a).unwrap(), b"kept");
}

#[test]
fn a_due_collector_sweeps() {
    let mut region = LargeObjectRegion::new(1024);
    let a = region.allocate(b"old").unwrap();
    let mut gc = EpochGc::new(0);
    gc.schedule_deletion_at(a, 1);
    assert_eq!(gc.maybe_sweep(&mut region, u32::MAX), 1);
    assert!(region.read(a).is_none());
    assert_eq!(gc.pending_count(), 0);
}

#[test]
fn header_totals_are_footprints() {
    assert_eq!(ExtentHeaderV2::header_total(0), 32);
    assert_eq!(ExtentHeaderV2::header_total(9), 48);
}

/// The bytes of every bucket.
fn table_bytes(t: &CuckooTable) -> Vec<Vec<u8>> {
    t.buckets().iter().map(|b| b.to_bytes()).collect()
}

#[test]
fn a_refused_insertion_leaves_the_table_as_it_was() {
    let mut t = CuckooTable::new(2, 1);
    assert_eq!(t.insert(&key(2, 1), b"two", BucketMode::Inline), Ok(()));
    assert_eq!(t.insert(&key(4, 2), b"four", BucketMode::Inline), Ok(()));
    let before = table_bytes(&t);
    assert_eq!(
        t.insert(&key(6, 3), b"six", BucketMode::Inline),
        Err(CuckooError::TableFull)
    );
    assert_eq!(table_bytes(&t), before);
    assert!(t.lookup(&key(6, 3)).is_none());
    assert_eq!(&t.lookup(&key(2, 1)).unwrap().value[..3], b"two");
    assert_eq!(&t.lookup(&key(4, 2)).unwrap().value[..4], b"four");
    assert_eq!(t.insert_extent(&key(6, 3), 64, 100), Err(CuckooError::TableFull));
    assert_eq!(table_bytes(&t), before);
    // A key that is stored is overwritten in its place.
    assert_eq!(t.insert(&key(4, 2), b"more", BucketMode::Inline), Ok(()));
    assert_eq!(&t.lookup(&key(4, 2)).unwrap().value[..4], b"more");
}

#[test]
fn a_long_chain_is_undone() {
    // All these keys can be in slots 0 and 1 only, so a chain visits them again
    // and again.
    let mut t = CuckooTable::new(8, 16);
    assert_eq!(t.insert_extent(&key(8, 1), 640, 7), Ok(()));
    assert_eq!(t.insert(&key(16, 2), b"b", BucketMode::Inline), Ok(()));
    let before = table_bytes(&t);
    for (hash, seed) in [(24, 3), (32, 4), (40, 5)] {
        assert_eq!(
            t.insert(&key(hash, seed), b"x", BucketMode::Inline),
            Err(CuckooError::TableFull)
        );
        assert_eq!(table_bytes(&t), before);
    }
    let first = t.lookup(&key(8, 1)).unwrap();
    assert_eq!((first.extent_offset, first.extent_length), (640, 7));
    assert_eq!(t.lookup(&key(16, 2)).unwrap().value[0], b'b');
}
