//! Work request ids, pending operations and pollers.

use rdmas::runtime::ops::WrIds;
use rdmas::runtime::poller::{AsyncPollerConfig, PendingMap};

#[test]
fn test_atomic_wr_id_monotonic() {
    let mut counter = WrIds::new();

    let id1 = counter.next_wr_id();
    let id2 = counter.next_wr_id();
    let id3 = counter.next_wr_id();

    assert!(id1 < id2);
    assert!(id2 < id3);
    assert_eq!(id1, 1);
}

#[test]
fn test_async_poller_config_defaults() {
    let config = AsyncPollerConfig::default();
    assert!(!config.busy_poll_fallback);
    assert_eq!(config.epoll_timeout_ms, 1);
    assert_eq!(config.busy_poll_iterations, 100);
}

#[test]
fn test_async_poller_config_pending_map_type() {
    let mut map = PendingMap::new();
    map.insert(42);
    assert!(map.contains_key(42));
}

#[test]
fn test_harvest_completions_empty() {
    let mut pending = PendingMap::new();
    pending.insert(1);
    // Clean up
    pending.clear();
    assert!(pending.is_empty());
}
