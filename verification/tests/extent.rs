//! The large object region.

use rdmas::engine::extent::{extent_total, ExtentError, LargeObjectRegion, HEADER_SIZE};

// -----------------------------------------------------------------------
// Basic allocate / read round-trip
// -----------------------------------------------------------------------

#[test]
fn test_allocate_read_round_trip() {
    let mut region = LargeObjectRegion::new(1024);
    let data = b"Hello, extent!".to_vec();
    let offset = region.allocate(&data).expect("allocation should succeed");

    let read_back = region.read(offset).expect("read should succeed");
    assert_eq!(read_back, data);
    assert_eq!(region.capacity(), 1024);
    assert_eq!(region.used_bytes(), extent_total(data.len() as u64));
    assert_eq!(region.allocated_count(), 1);
}

#[test]
fn test_allocate_multiple_readable() {
    let mut region = LargeObjectRegion::new(4096);
    let d0 = vec![0xAAu8; 100];
    let d1 = vec![0xBBu8; 200];
    let d2 = vec![0xCCu8; 50];

    let off0 = region.allocate(&d0).unwrap();
    let off1 = region.allocate(&d1).unwrap();
    let off2 = region.allocate(&d2).unwrap();

    assert_eq!(region.read(off0).unwrap(), d0);
    assert_eq!(region.read(off1).unwrap(), d1);
    assert_eq!(region.read(off2).unwrap(), d2);
    assert_eq!(region.allocated_count(), 3);
}

#[test]
fn test_allocate_empty_data() {
    let mut region = LargeObjectRegion::new(256);
    let offset = region.allocate(&[]).expect("allocation should succeed");
    let read_back = region.read(offset).expect("read should succeed");
    assert!(read_back.is_empty());
    assert_eq!(region.used_bytes(), extent_total(0)); // header only, aligned
}

#[test]
fn test_allocate_large_data() {
    let size = 65536; // 64 KiB
    let mut region = LargeObjectRegion::new(size);
    let data = vec![0x42u8; size - HEADER_SIZE as usize];
    let offset = region.allocate(&data).expect("allocation should succeed");
    let read_back = region.read(offset).unwrap();
    assert_eq!(read_back, data);
    // Next allocation should fail : buffer is full
    assert!(region.allocate(&[1u8; 1]).is_none());
}

// -----------------------------------------------------------------------
// Out-of-space handling
// -----------------------------------------------------------------------

#[test]
fn test_allocate_out_of_space() {
    let mut region = LargeObjectRegion::new(64);
    // Need 32 (header) + 50 = 82 bytes, but only have 64
    let data = vec![0u8; 50];
    assert!(region.allocate(&data).is_none());
}

#[test]
fn test_allocate_exact_fit() {
    let mut region = LargeObjectRegion::new(HEADER_SIZE as usize + 16);
    let offset = region.allocate(&vec![0u8; 16]).expect("exact fit should succeed");
    assert_eq!(region.read(offset).unwrap().len(), 16);
    // No space left
    assert!(region.allocate(&[0u8]).is_none());
}

#[test]
fn test_allocate_just_one_byte_over() {
    let cap = HEADER_SIZE as usize + 16;
    let mut region = LargeObjectRegion::new(cap);
    let offset = region.allocate(&vec![0u8; 15]).expect("should fit");
    assert_eq!(region.read(offset).unwrap().len(), 15);
    // Remaining: cap - (32+15) = cap - 47. For cap=48, 1 byte free.
    // 1 byte is not enough even for an empty extent (needs 32 bytes).
    assert!(region.allocate(&[]).is_none());
}

// -----------------------------------------------------------------------
// Free + reallocate
// -----------------------------------------------------------------------

#[test]
fn test_free_and_reallocate_same_size() {
    let mut region = LargeObjectRegion::new(4096);
    let data_a = vec![0x11u8; 500];
    let data_b = vec![0x22u8; 500];

    let off_a = region.allocate(&data_a).unwrap();
    let off_b = region.allocate(&data_b).unwrap();

    // Free the first extent
    region.free(off_a).expect("free should succeed");
    assert_eq!(region.free_list_len(), 1);

    // Allocate something of the same size : should reuse the freed slot
    let data_c = vec![0x33u8; 500];
    let off_c = region.allocate(&data_c).unwrap();
    assert_eq!(off_c, off_a, "should reuse exact freed offset");

    // Both extents should still be readable
    assert_eq!(region.read(off_c).unwrap(), data_c);
    assert_eq!(region.read(off_b).unwrap(), data_b);
}

#[test]
fn test_free_and_reallocate_smaller() {
    let mut region = LargeObjectRegion::new(4096);
    let data_big = vec![0xAAu8; 400];
    let off_big = region.allocate(&data_big).unwrap();

    region.free(off_big).unwrap();

    // Allocate something smaller : should reuse and split
    let data_small = vec![0xBBu8; 100];
    let off_small = region.allocate(&data_small).unwrap();
    assert_eq!(off_small, off_big);
    assert_eq!(region.free_list_len(), 1, "remainder should be in free list");

    // The remainder can be used for another allocation
    let data_med = vec![0xCCu8; 200];
    let off_med = region.allocate(&data_med).unwrap();
    assert_eq!(region.read(off_med).unwrap(), data_med);
    assert_eq!(region.read(off_small).unwrap(), data_small);
}

#[test]
fn test_free_and_reallocate_larger_falls_back_to_bump() {
    let mut region = LargeObjectRegion::new(4096);
    let data_s = vec![0x11u8; 100];
    let off = region.allocate(&data_s).unwrap();
    region.free(off).unwrap();

    // Freed slot is too small -> bump-allocated
    let data_l = vec![0x22u8; 500];
    let off_l = region.allocate(&data_l).unwrap();
    assert_ne!(off_l, off, "should not reuse too-small slot");
    assert_eq!(region.read(off_l).unwrap(), data_l);
    // The small freed slot is still in the free list
    assert_eq!(region.free_list_len(), 1);
}

#[test]
fn test_free_twice_is_error() {
    let mut region = LargeObjectRegion::new(1024);
    let off = region.allocate(&vec![0u8; 50]).unwrap();
    region.free(off).unwrap();
    let result = region.free(off);
    assert_eq!(result, Err(ExtentError::NotAllocated));
}

#[test]
fn test_free_unallocated_offset() {
    let mut region = LargeObjectRegion::new(1024);
    let result = region.free(0);
    assert_eq!(result, Err(ExtentError::NotAllocated));
}

// -----------------------------------------------------------------------
// Magic verification
// -----------------------------------------------------------------------

#[test]
fn test_read_invalid_offset() {
    let region = LargeObjectRegion::new(256);
    assert!(region.read(9999).is_none());
    assert!(region.read(256).is_none()); // one past end
}

#[test]
fn test_read_corrupted_magic() {
    let mut region = LargeObjectRegion::new(256);
    let off = region.allocate(b"test").unwrap();

    // Corrupt the magic in the buffer directly.
    // In V2, magic is at byte 0 of the header.
    let hdr_off = off as usize;
    region.buffer[hdr_off..hdr_off + 4].copy_from_slice(&[0u8; 4]);

    assert!(region.read(off).is_none(), "should reject corrupted magic");
}

#[test]
fn test_mark_for_gc_invalid_offset() {
    let mut region = LargeObjectRegion::new(256);
    assert_eq!(
        region.mark_for_gc(9999, 42),
        Err(ExtentError::InvalidOffset)
    );
}

#[test]
fn test_mark_for_gc_corrupted_magic() {
    let mut region = LargeObjectRegion::new(256);
    let off = region.allocate(b"test").unwrap();
    // Corrupt magic (byte 0 in V2).
    region.buffer[off as usize..off as usize + 4].copy_from_slice(&[0; 4]);
    assert_eq!(
        region.mark_for_gc(off, 42),
        Err(ExtentError::InvalidMagic)
    );
}

// -----------------------------------------------------------------------
// GC: mark + sweep
// -----------------------------------------------------------------------

#[test]
fn test_sweep_collects_marked_extent() {
    let mut region = LargeObjectRegion::new(4096);
    let keep = region.allocate(b"keep me").unwrap();
    let toss = region.allocate(b"toss me").unwrap();

    region.mark_for_gc(toss, 100).unwrap();
    region.mark_for_gc(keep, 200).unwrap();

    // Sweep with min_active_epoch=150: toss (epoch 100) < 150, keep (200) >= 150
    let freed = region.sweep(150);
    assert_eq!(freed, 1);
    assert!(region.read(toss).is_none(), "tossed extent magic may still be readable but free-list reuse should reclaim it");
    assert_eq!(region.read(keep).unwrap(), b"keep me");
    assert_eq!(region.free_list_len(), 1);
}

#[test]
fn test_sweep_ignores_unmarked_extents() {
    let mut region = LargeObjectRegion::new(4096);
    let off = region.allocate(b"unmarked").unwrap();

    // epoch_mark is 0 by default; sweep even with min_active_epoch=1
    let freed = region.sweep(1);
    assert_eq!(freed, 0, "unmarked extents (epoch=0) should not be swept");
    assert_eq!(region.read(off).unwrap(), b"unmarked");
}

#[test]
fn test_sweep_zero_threshold_collects_nothing() {
    let mut region = LargeObjectRegion::new(4096);
    let off = region.allocate(b"data").unwrap();

    region.mark_for_gc(off, 1).unwrap();
    // min_active_epoch=1: epoch_mark (1) is not < 1
    let freed = region.sweep(1);
    assert_eq!(freed, 0);
}

#[test]
fn test_sweep_returns_zero_when_nothing_to_collect() {
    let mut region = LargeObjectRegion::new(4096);
    region.allocate(b"a").unwrap();
    region.allocate(b"b").unwrap();
    let freed = region.sweep(100);
    assert_eq!(freed, 0);
}

#[test]
fn test_sweep_multiple_epochs() {
    let mut region = LargeObjectRegion::new(4096);
    let e1 = region.allocate(b"epoch10").unwrap();
    let e2 = region.allocate(b"epoch20").unwrap();
    let e3 = region.allocate(b"epoch30").unwrap();

    region.mark_for_gc(e1, 10).unwrap();
    region.mark_for_gc(e2, 20).unwrap();
    region.mark_for_gc(e3, 30).unwrap();

    // Sweep at threshold=25: only e1 (10) and e2 (20) collected
    let freed = region.sweep(25);
    assert_eq!(freed, 2);
    assert_eq!(region.allocated_count(), 1);
    assert_eq!(region.read(e3).unwrap(), b"epoch30");
}

// -----------------------------------------------------------------------
// Edge cases
// -----------------------------------------------------------------------

#[test]
fn test_allocated_count_tracks_correctly_through_free_realloc() {
    let mut region = LargeObjectRegion::new(8192);
    assert_eq!(region.allocated_count(), 0);

    let a = region.allocate(b"a").unwrap();
    assert_eq!(region.allocated_count(), 1);

    let b = region.allocate(b"b").unwrap();
    assert_eq!(region.allocated_count(), 2);

    region.free(a).unwrap();
    assert_eq!(region.allocated_count(), 1);

    region.allocate(b"c").unwrap();
    assert_eq!(region.allocated_count(), 2);

    region.free(b).unwrap();
    assert_eq!(region.allocated_count(), 1);
}

#[test]
fn test_capacity_unchanged_after_operations() {
    let mut region = LargeObjectRegion::new(2048);
    assert_eq!(region.capacity(), 2048);

    let off = region.allocate(&vec![0u8; 500]).unwrap();
    assert_eq!(region.capacity(), 2048);

    region.free(off).unwrap();
    assert_eq!(region.capacity(), 2048);
}

#[test]
fn test_sweeped_extent_can_be_reallocated() {
    let mut region = LargeObjectRegion::new(4096);
    let off = region.allocate(b"swept").unwrap();
    region.mark_for_gc(off, 5).unwrap();
    region.sweep(10);

    // The freed offset should now be in the free list and reusable
    let new_off = region.allocate(b"reused").unwrap();
    assert_eq!(new_off, off);
    assert_eq!(region.read(new_off).unwrap(), b"reused");
}

#[test]
fn test_many_allocations_and_frees() {
    let mut region = LargeObjectRegion::new(16384);
    let mut offsets = Vec::new();

    // Allocate 20 extents of varying sizes
    for i in 0..20u64 {
        let data = vec![i as u8; 16 + i as usize * 5];
        let off = region.allocate(&data).unwrap();
        offsets.push((off, data));
    }

    // Read them all back
    for (off, expected) in &offsets {
        assert_eq!(region.read(*off).unwrap(), *expected);
    }

    // Free half of them
    for (off, _) in offsets.iter().take(10) {
        region.free(*off).unwrap();
    }

    // Allocate new ones : should reuse free list
    for i in 0..10u64 {
        let data = vec![(100 + i) as u8; 20];
        let _ = region.allocate(&data).unwrap();
    }

    // Remaining original extents still readable
    for (off, expected) in offsets.iter().skip(10) {
        assert_eq!(region.read(*off).unwrap(), *expected);
    }
}

// -----------------------------------------------------------------------
// V1 -> V2 migration tests
// -----------------------------------------------------------------------

/// Create an extent with V1 format, read it back, verify it's decoded
/// correctly as V1-format data.
#[test]
fn test_v1_migration_read_old_format() {
    let mut region = LargeObjectRegion::new(1024);
    let data = b"V1 legacy data".to_vec();

    let offset = region.write_extent_v1(&data).expect("V1 write should succeed");
    let read_back = region.read(offset).expect("should read V1 extent");

    assert_eq!(read_back, data, "V1 data should be readable through migration path");
}

/// Write a V1 extent, free it, re-allocate with V2, verify both paths work.
#[test]
fn test_v1_migration_free_and_reallocate_as_v2() {
    let mut region = LargeObjectRegion::new(4096);
    // Use a large enough V1 extent so the V2 allocation fits in the freed slot.
    // V1: 24 + 128 = 152 bytes.  V2 with 100-byte data: align_up(32+100,8) = 136 bytes. Fits.
    let v1_data = vec![0xABu8; 128];

    let v1_offset = region.write_extent_v1(&v1_data).unwrap();
    assert_eq!(region.read(v1_offset).unwrap(), v1_data);

    // Free the V1 extent
    region.free(v1_offset).expect("should free V1 extent");

    // Allocate a V2 extent in the same spot (100 bytes of data, smaller total)
    let v2_data = vec![0xCDu8; 100];
    let v2_offset = region.allocate(&v2_data).unwrap();

    // The V2 extent should reuse the freed V1 slot
    assert_eq!(v2_offset, v1_offset, "V2 should reuse V1 freed slot");
    assert_eq!(region.read(v2_offset).unwrap(), v2_data);
}

/// Write multiple V1 extents interleaved with V2, verify all readable.
#[test]
fn test_v1_v2_interleaved() {
    let mut region = LargeObjectRegion::new(8192);

    let v1a = region.write_extent_v1(b"V1-a").unwrap();
    let v2a = region.allocate(b"V2-a").unwrap();
    let v1b = region.write_extent_v1(b"V1-b").unwrap();

    assert_eq!(region.read(v1a).unwrap(), b"V1-a");
    assert_eq!(region.read(v2a).unwrap(), b"V2-a");
    assert_eq!(region.read(v1b).unwrap(), b"V1-b");
}

/// V2 round-trip: create V2 extent with checksum, read back, verify
/// checksum matches expected value.
#[test]
fn test_v2_checksum_round_trip() {
    let mut region = LargeObjectRegion::new(4096);
    let data = b"checksummed V2 data".to_vec();
    let expected_checksum = xxhash_rust::xxh64::xxh64(&data, 0);

    let offset = region
        .write_extent_v2_checksummed(&data)
        .expect("V2 checksummed write should succeed");

    // Read back the data
    let read_back = region.read(offset).expect("should read V2 extent");
    assert_eq!(read_back, data);

    // Read the stored checksum from the header
    let stored_checksum = region
        .read_checksum(offset)
        .expect("should read checksum from V2 header");
    assert_eq!(stored_checksum, expected_checksum, "stored checksum should match XXH64");
}

/// V2 with checksum=0 (write-in-progress sentinel) should still be
/// readable (the reader only checks magic, not checksum, in the
/// current implementation).
#[test]
fn test_v2_zero_checksum_readable() {
    let mut region = LargeObjectRegion::new(4096);
    let data = b"zero-checksum data".to_vec();

    // Normal allocate() writes checksum=0 (write-in-progress sentinel)
    let offset = region.allocate(&data).unwrap();
    let read_back = region.read(offset).unwrap();
    assert_eq!(read_back, data);

    let stored = region.read_checksum(offset).unwrap();
    assert_eq!(stored, 0, "normal allocate() uses checksum=0 sentinel");
}

/// V2 with a non-zero checksum, then verify re-reading after allocation.
#[test]
fn test_v2_checksum_persisted() {
    let mut region = LargeObjectRegion::new(4096);
    let data = vec![0xABu8; 256];

    let offset = region.write_extent_v2_checksummed(&data).unwrap();

    // Free and re-allocate; should not affect the checksum of original
    let checksum_before = region.read_checksum(offset).unwrap();
    assert!(checksum_before > 0, "checksum should be non-zero");

    // Even after other allocations, the checksum persists
    let _other = region.allocate(&vec![0xCDu8; 100]).unwrap();
    let checksum_after = region.read_checksum(offset).unwrap();
    assert_eq!(checksum_after, checksum_before, "checksum should persist");
}

/// All new allocations use ExtentHeaderV2 (version=1), never V1.
#[test]
fn test_all_new_allocations_use_v2() {
    let mut region = LargeObjectRegion::new(4096);

    let o1 = region.allocate(b"first").unwrap();
    let o2 = region.allocate(b"second").unwrap();
    let o3 = region.allocate(b"third").unwrap();

    // All should have non-zero checksum field (no : default is 0, so
    // we check that they are V2 by verifying the checksum field is
    // accessible and the version byte indicates V2).
    // read_checksum returns None for non-V2 headers, so if it returns
    // Some, the header is V2.
    assert!(region.read_checksum(o1).is_some(), "allocation should be V2");
    assert!(region.read_checksum(o2).is_some(), "allocation should be V2");
    assert!(region.read_checksum(o3).is_some(), "allocation should be V2");
}

/// Edge case: V1 format with maximal data_len, verify it decodes.
#[test]
fn test_v1_migration_large_data() {
    let data_size = 500usize;
    let mut region = LargeObjectRegion::new(4096);
    let data = vec![0x7Fu8; data_size];

    let offset = region.write_extent_v1(&data).unwrap();
    let read_back = region.read(offset).unwrap();
    assert_eq!(read_back.len(), data_size);
    assert_eq!(read_back, data);
}

/// Edge case: V1 with empty data.
#[test]
fn test_v1_migration_empty_data() {
    let mut region = LargeObjectRegion::new(256);
    let offset = region.write_extent_v1(&[]).unwrap();
    let read_back = region.read(offset).unwrap();
    assert!(read_back.is_empty());
}

/// read_checksum returns None for V1 extents.
#[test]
fn test_read_checksum_returns_none_for_v1() {
    let mut region = LargeObjectRegion::new(1024);
    let offset = region.write_extent_v1(b"v1 data").unwrap();
    let checksum = region.read_checksum(offset);
    assert!(checksum.is_none(), "V1 extents should not have a V2 checksum field");
}
