//! Fragmentation of the large object region.

use rdmas::engine::extent::{extent_total, LargeObjectRegion};

/// Capacity over the bytes in use, or 0 where none are.
fn fragmentation_ratio(region: &LargeObjectRegion) -> f64 {
    let used = region.used_bytes();
    if used == 0 {
        0.0
    } else {
        region.capacity() as f64 / used as f64
    }
}

#[test]
fn test_fragmentation_ratio_empty_region() {
    let region = LargeObjectRegion::new(1024);
    assert_eq!(fragmentation_ratio(&region), 0.0);
}

#[test]
fn test_fragmentation_ratio_fully_packed() {
    // Two extents of 8 bytes each: extent_total(8) = align_up(32+8, 8) = 40.
    // Total = 80.  Capacity = 80 -> fully packed.
    let cap = 80;
    let mut region = LargeObjectRegion::new(cap);
    region.allocate(&vec![0u8; 8]).unwrap();
    region.allocate(&vec![0u8; 8]).unwrap();

    let ratio = fragmentation_ratio(&region);
    assert!((ratio - 1.0).abs() < 1e-9, "fully packed should be ~1.0, got {ratio}");
}

#[test]
fn test_fragmentation_ratio_with_holes() {
    let mut region = LargeObjectRegion::new(4096);
    let a = region.allocate(&vec![0u8; 200]).unwrap();
    let _b = region.allocate(&vec![0u8; 300]).unwrap();
    region.free(a).unwrap();

    // Used bytes = only b (aligned footprint)
    // Ratio = 4096 / used > 1.0
    let ratio = fragmentation_ratio(&region);
    assert!(ratio > 1.0, "should show > 1.0 with free-list holes");
    assert_eq!(region.used_bytes(), extent_total(300));
}

#[test]
fn test_fragmentation_ratio_after_reuse() {
    let mut region = LargeObjectRegion::new(4096);
    let a = region.allocate(&vec![0xAAu8; 100]).unwrap();
    let _b = region.allocate(&vec![0xBBu8; 100]).unwrap();
    region.free(a).unwrap();
    // Reuse the exact slot
    region.allocate(&vec![0xCCu8; 100]).unwrap();
    // Should be fully packed again
    let ratio = fragmentation_ratio(&region);
    let expected = region.size as f64 / region.used_bytes() as f64;
    assert!((ratio - expected).abs() < 1e-9);
}
