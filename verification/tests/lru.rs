//! The LRU tracker.

use rdmas::engine::lru::LruTracker;

#[test]
fn record_access_increments_key_count() {
    let mut tracker = LruTracker::new(1000);
    assert_eq!(tracker.key_count(), 0);
    tracker.record_access(42);
    assert!(tracker.key_count() >= 1);
    tracker.record_access(7);
    assert!(tracker.key_count() >= 2);
}

#[test]
fn watermark_default_is_100k() {
    let tracker = LruTracker::default();
    // Default watermark is 100_000.
    // key_count starts at 0, so needs_eviction should be false.
    assert!(!tracker.needs_eviction());
}

#[test]
fn needs_eviction_false_below_watermark() {
    let mut tracker = LruTracker::new(100);
    for i in 0..50 {
        tracker.record_access(i);
    }
    // Duplicate accesses inflate key_count; select_candidates
    // deduplicates and resets it.  Call select_candidates to let
    // dedup shrink key_count below watermark.
    let _ = tracker.select_eviction_candidates(0);
    assert!(!tracker.needs_eviction());
}

#[test]
fn needs_eviction_true_above_watermark() {
    let mut tracker = LruTracker::new(3);
    tracker.record_access(1);
    tracker.record_access(2);
    tracker.record_access(3);
    tracker.record_access(4);
    // With 4 access records pushed, key_count reads 4 which is > 3.
    assert!(tracker.needs_eviction());
}

#[test]
fn select_candidates_returns_oldest() {
    let mut tracker = LruTracker::new(100);
    // Simulate two accesses: key 1 at a lower timestamp, key 2 later.
    tracker.record_access_at(1, 100);
    tracker.record_access_at(2, 200);

    let candidates = tracker.select_eviction_candidates(1);
    assert_eq!(candidates.len(), 1);
    // Key 1 has the older timestamp (100 < 200), so it should be selected.
    assert!(candidates.contains(&1));
}

#[test]
fn evicted_count_increments() {
    let mut tracker = LruTracker::new(100);
    assert_eq!(tracker.evicted_count(), 0);
    tracker.increment_evicted(3);
    assert_eq!(tracker.evicted_count(), 3);
    tracker.increment_evicted(2);
    assert_eq!(tracker.evicted_count(), 5);
}

#[test]
fn select_zero_candidates_returns_empty() {
    let mut tracker = LruTracker::new(100);
    tracker.record_access(1);
    tracker.record_access(2);
    let candidates = tracker.select_eviction_candidates(0);
    assert!(candidates.is_empty());
}

#[test]
fn select_more_than_available_returns_all() {
    let mut tracker = LruTracker::new(100);
    tracker.record_access_at(10, 10);
    tracker.record_access_at(20, 20);
    let candidates = tracker.select_eviction_candidates(100);
    // Only 2 keys exist.
    assert_eq!(candidates.len(), 2);
}
