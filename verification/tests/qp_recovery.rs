//! Queue pair health checks.

use rdmas::error::RdmaError;
use rdmas::rdma::qp::{QpState, QueuePair};
use rdmas::rdma::qp_recovery::QpGuard;

#[test]
fn test_qp_guard_new_and_recovery_count_zero() {
    let guard = QpGuard::new(QueuePair::create(1, 1).unwrap());
    assert_eq!(guard.recovery_count(), 0);
    assert!(guard.last_error().is_none());
    assert_eq!(guard.qp().qp_num(), 1);
}

#[test]
fn test_recovery_count_tracking() {
    let mut guard = QpGuard::new(QueuePair::create(1, 1).unwrap());
    assert!(guard.check_health(0, QpState::Error).is_err());
    assert!(guard.check_health(0, QpState::Error).is_err());
    assert_eq!(guard.recovery_count(), 2);
}

#[test]
fn test_last_error_stores_and_retrieves() {
    let mut guard = QpGuard::new(QueuePair::create(1, 1).unwrap());

    // Set an error
    assert!(guard.check_health(0, QpState::Error).is_err());

    // Retrieve it
    let stored = guard.last_error();
    assert!(stored.is_some());
    assert!(matches!(stored.unwrap(), RdmaError::HardwareError(_)));
}
