//! Retries with backoff and pending operations.

use rdmas::client::retry::{PendingTracker, RetryConfig, RetryState, RetryStep};
use rdmas::error::RdmaError;
use std::time::{Duration, Instant};

/// Runs `op` until it succeeds or the retry state gives up, without waiting.
fn retry<T, E>(
    config: &RetryConfig,
    retriable: impl Fn(&E) -> bool,
    mut op: impl FnMut() -> Result<T, E>,
) -> Result<T, E> {
    let mut state = RetryState::new();
    loop {
        match op() {
            Ok(v) => return Ok(v),
            Err(e) => match state.after_failure(config, retriable(&e)) {
                RetryStep::GiveUp => return Err(e),
                RetryStep::Wait { .. } => {}
            },
        }
    }
}

// ------------------------------------------------------------------
// retry_with_backoff
// ------------------------------------------------------------------

#[test]
fn test_retry_succeeds_on_first_attempt() {
    let config = RetryConfig::default();
    let result = retry(&config, |_| true, || -> Result<i32, &str> { Ok(42) });
    assert_eq!(result, Ok(42));
}

#[test]
fn test_retry_succeeds_after_failures() {
    let config = RetryConfig {
        max_retries: 3,
        ..Default::default()
    };
    let mut attempts = 0;
    let result = retry(&config, |_| true, || -> Result<i32, &str> {
        attempts += 1;
        if attempts < 3 {
            Err("fail")
        } else {
            Ok(99)
        }
    });
    assert_eq!(result, Ok(99));
    assert_eq!(attempts, 3);
}

#[test]
fn test_retry_exhausts_and_returns_error() {
    let config = RetryConfig {
        max_retries: 2,
        ..Default::default()
    };
    let result = retry(&config, |_| true, || -> Result<i32, &str> {
        Err("always fail")
    });
    assert!(result.is_err());
}

// ------------------------------------------------------------------
// retry_rdma_op
// ------------------------------------------------------------------

#[test]
fn test_rdma_retry_respects_retriability() {
    let config = RetryConfig::default();
    let result = retry(&config, |e: &RdmaError| e.is_retriable(), || -> Result<i32, RdmaError> {
        Err(RdmaError::KvFull)
    });
    // KvFull is NOT retriable -> fails immediately (0 sleep, no retry).
    assert!(result.is_err());
}

#[test]
fn test_rdma_retry_retries_timeout() {
    let config = RetryConfig {
        max_retries: 3,
        base_delay: 10_000,
        ..Default::default()
    };
    let mut attempts = 0;
    let result = retry(&config, |e: &RdmaError| e.is_retriable(), || -> Result<i32, RdmaError> {
        attempts += 1;
        if attempts < 3 {
            Err(RdmaError::Timeout)
        } else {
            Ok(1)
        }
    });
    assert_eq!(result, Ok(1));
    assert_eq!(attempts, 3);
}

#[test]
fn test_rdma_retry_non_retriable_does_not_retry() {
    // A non-retriable error should fail on the first attempt with no delay.
    let config = RetryConfig {
        max_retries: 5,
        base_delay: 100_000_000,
        ..Default::default()
    };
    let start = Instant::now();
    let result = retry(&config, |e: &RdmaError| e.is_retriable(), || -> Result<i32, RdmaError> {
        Err(RdmaError::InvalidKey)
    });
    let elapsed = start.elapsed();
    assert!(result.is_err());
    // Must not have waited for any backoff.
    assert!(
        elapsed < Duration::from_millis(1),
        "non-retriable error should not sleep, but took {elapsed:?}"
    );
}

// ------------------------------------------------------------------
// PendingTracker
// ------------------------------------------------------------------

#[test]
fn test_pending_tracker_register_and_complete() {
    let mut tracker = PendingTracker::default();
    tracker.register(1, "test_op");
    assert_eq!(tracker.pending_count(), 1);
    tracker.complete(1);
    assert_eq!(tracker.pending_count(), 0);
}

#[test]
fn test_pending_tracker_timeout() {
    let mut tracker = PendingTracker::new(100_000);
    tracker.register(1, "quick_op");
    let start = Instant::now();
    while start.elapsed() < Duration::from_millis(1) {}
    let timeouts = tracker.scan_timeouts();
    assert!(!timeouts.is_empty());
    assert_eq!(timeouts[0].0, 1);
}

#[test]
fn test_pending_tracker_collect_timeouts() {
    let mut tracker = PendingTracker::new(100_000);
    tracker.register(1, "timeout_op");
    tracker.register(2, "also_timeout");
    let start = Instant::now();
    while start.elapsed() < Duration::from_millis(1) {}
    let removed = tracker.collect_timeouts();
    assert_eq!(removed, 2);
    assert_eq!(tracker.pending_count(), 0);
}

#[test]
fn test_pending_tracker_no_timeout_before_deadline() {
    let mut tracker = PendingTracker::new(60_000_000_000);
    tracker.register(1, "long_timeout");
    let timeouts = tracker.scan_timeouts();
    assert!(timeouts.is_empty());
}

#[test]
fn test_pending_tracker_multiple_registrations() {
    let mut tracker = PendingTracker::default();
    tracker.register(1, "a");
    tracker.register(2, "b");
    tracker.register(3, "c");
    assert_eq!(tracker.pending_count(), 3);
    tracker.complete(2);
    assert_eq!(tracker.pending_count(), 2);
}

#[test]
fn test_pending_tracker_scan_does_not_remove() {
    let mut tracker = PendingTracker::new(100_000);
    tracker.register(1, "op");
    let start = Instant::now();
    while start.elapsed() < Duration::from_millis(1) {}
    assert_eq!(tracker.pending_count(), 1);
    let timeouts = tracker.scan_timeouts();
    assert_eq!(timeouts.len(), 1);
    // scan_timeouts is non-destructive.
    assert_eq!(tracker.pending_count(), 1);
}

// ------------------------------------------------------------------
// RetryConfig defaults
// ------------------------------------------------------------------

#[test]
fn test_retry_config_defaults() {
    let config = RetryConfig::default();
    assert_eq!(config.max_retries, 3);
    assert_eq!(config.base_delay, 100_000);
    assert_eq!(config.max_delay, 10_000_000);
}
