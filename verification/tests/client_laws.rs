//! Laws of the client on concrete values.

use rdmas::client::opt::BatchBuilder;
use rdmas::client::read::ClientReader;
use rdmas::client::retry::{
    with_jitter, wrapped_ns, PendingTracker, RetryConfig, RetryState, RetryStep,
};
use rdmas::client::session::{
    tcp_fallback_addr, ClientSession, ClientSessionError, SessionAction, SessionEvent, SessionStep,
};
use rdmas::client::write::{ClientWriter, WriteResult};
use rdmas::control::proto::{RegionMetadata, RegionType, ServerMetadata};
use rdmas::engine::extent::LargeObjectRegion;
use rdmas::engine::layout::{BucketMode, HashBucket, HashedKey};
use rdmas::error::RdmaError;

fn key(hash: u64, seed: u8) -> HashedKey {
    HashedKey { hash, digest: [seed; 16] }
}

// -----------------------------------------------------------------------
// Reads and writes
// -----------------------------------------------------------------------

#[test]
fn a_written_key_reads_back() {
    let mut buckets = vec![HashBucket::zeroed(); 32];
    let mut region = LargeObjectRegion::new(8192);
    for i in 1..=10u64 {
        let k = key(i * 0x3_0000_0001, i as u8);
        let mode = if i % 2 == 0 { BucketMode::Inline } else { BucketMode::Extent };
        let value = vec![i as u8; 20];
        let r = ClientWriter::insert(&k, &value, mode, &mut buckets, Some(&mut region), 32);
        assert!(matches!(r, Ok(WriteResult::Inserted { .. })));
        for j in 1..=i {
            let k = key(j * 0x3_0000_0001, j as u8);
            let found = ClientReader::get(&k, &buckets, Some(&region), 32).unwrap().unwrap();
            assert_eq!(&found.value[..20], &vec![j as u8; 20][..]);
        }
    }
}

#[test]
fn the_inserted_bucket_holds_the_key() {
    let mut buckets = vec![HashBucket::zeroed(); 4];
    // Both keys have h1 = 1 and h2 = 1: the second moves the first.
    for (hash, seed) in [(0x1u64, 1u8), (0x2_0000_0001, 2), (0x2_0000_0005, 3)] {
        let k = key(hash, seed);
        match ClientWriter::insert(&k, b"v", BucketMode::Inline, &mut buckets, None, 4) {
            Ok(WriteResult::Inserted { bucket_idx }) => {
                assert!(buckets[bucket_idx].matches_key(hash, &[seed; 16]))
            }
            Ok(WriteResult::TableFull) => {}
            Err(e) => panic!("unexpected error {e:?}"),
        }
    }
}

#[test]
fn write_errors() {
    let mut buckets = vec![HashBucket::zeroed(); 4];
    let mut tiny = LargeObjectRegion::new(16);
    assert!(ClientWriter::insert(
        &key(1, 1),
        &[0; 100],
        BucketMode::Extent,
        &mut buckets,
        Some(&mut tiny),
        4
    )
    .is_err());
    assert!(buckets.iter().all(|b| b.is_empty()));
}

#[test]
fn a_flushed_batch_is_readable() {
    let mut buckets = vec![HashBucket::zeroed(); 64];
    let mut region = LargeObjectRegion::new(4096);
    let mut batch = BatchBuilder::new(2);
    batch.add(key(5, 1), b"small".to_vec(), BucketMode::Inline);
    batch.add(key(6, 2), vec![7; 100], BucketMode::Extent);
    assert_eq!(batch.flush_local(&mut buckets, Some(&mut region), 64), 2);
    assert!(batch.is_empty());
    let a = ClientReader::get(&key(5, 1), &buckets, Some(&region), 64).unwrap().unwrap();
    assert_eq!(&a.value[..5], b"small");
    let b = ClientReader::get(&key(6, 2), &buckets, Some(&region), 64).unwrap().unwrap();
    assert_eq!(b.value, vec![7; 100]);
}

// -----------------------------------------------------------------------
// Retries
// -----------------------------------------------------------------------

#[test]
fn backoff_doubles_up_to_the_limit() {
    let config = RetryConfig { max_retries: 9, base_delay: 100_000, max_delay: 1_000_000 };
    let mut state = RetryState::new();
    let mut delays = Vec::new();
    while let RetryStep::Wait { delay_us } = state.after_failure(&config, true) {
        delays.push(delay_us);
    }
    assert_eq!(delays, vec![200, 400, 800, 1000, 1000, 1000, 1000, 1000, 1000]);
}

#[test]
fn errors_that_cannot_be_retried_end_at_once() {
    let config = RetryConfig::default();
    assert_eq!(
        RetryState::new().after_rdma_failure(&config, &RdmaError::KvFull),
        RetryStep::GiveUp
    );
    assert_eq!(
        RetryState::new().after_rdma_failure(&config, &RdmaError::NotConnected),
        RetryStep::Wait { delay_us: 200 }
    );
}

#[test]
fn jitter_is_added_and_never_negative() {
    assert_eq!(with_jitter(100, 20), 120);
    assert_eq!(with_jitter(100, -20), 80);
    assert_eq!(with_jitter(10, -20), 0);
}

#[test]
fn timeouts_are_reported_and_collected() {
    let mut tracker = PendingTracker::new(1_000);
    tracker.register_at(1, "early", 100);
    tracker.register_at(2, "late", 900);
    assert!(tracker.scan_timeouts_at(1_100).is_empty());
    assert_eq!(tracker.scan_timeouts_at(1_500), vec![(1, 1_400)]);
    assert_eq!(tracker.collect_timeouts_at(1_500), 1);
    assert_eq!(tracker.pending_count(), 1);
    assert_eq!(tracker.collect_timeouts_at(1_500), 0);
}

#[test]
fn the_tracker_clock_wraps_at_64_bits() {
    assert_eq!(wrapped_ns(0x1_0000_0000_0000_0005), 5);
    assert_eq!(wrapped_ns(77), 77);
}

#[test]
fn retriable_errors() {
    let retriable = [
        RdmaError::Timeout,
        RdmaError::CasFailed,
        RdmaError::VersionMismatch,
        RdmaError::NotConnected,
    ];
    assert!(retriable.iter().all(|e| e.is_retriable()));
    let fatal = [
        RdmaError::KvFull,
        RdmaError::InvalidKey,
        RdmaError::HardwareError(String::new()),
        RdmaError::ProtocolVersionMismatch(String::new()),
        RdmaError::Internal(String::new()),
    ];
    assert!(fatal.iter().all(|e| !e.is_retriable()));
}

#[test]
fn error_messages() {
    assert_eq!(RdmaError::Timeout.message(), "operation timed out");
    assert_eq!(RdmaError::CasFailed.message(), "CAS compare-and-swap failed");
    assert_eq!(
        RdmaError::VersionMismatch.message(),
        "version mismatch during optimistic read"
    );
    assert_eq!(RdmaError::KvFull.message(), "hash table full");
    assert_eq!(RdmaError::InvalidKey.message(), "invalid key");
    assert_eq!(RdmaError::HardwareError("x".into()).message(), "hardware error: x");
    assert_eq!(RdmaError::NotConnected.message(), "not connected");
    assert_eq!(
        RdmaError::ProtocolVersionMismatch("x".into()).message(),
        "protocol version mismatch: x"
    );
    assert_eq!(RdmaError::Internal("x".into()).message(), "internal error: x");
    assert_eq!(ClientSessionError::Grpc("x".into()).message(), "gRPC error: x");
    assert_eq!(ClientSessionError::Transport("x".into()).message(), "gRPC transport: x");
    assert_eq!(ClientSessionError::Tls("x".into()).message(), "TLS error: x");
    assert!(ClientSessionError::MissingRegion("x".into()).message().contains('x'));
    assert_eq!(
        ClientSessionError::from(RdmaError::Timeout).message(),
        "RDMA error: operation timed out"
    );
}

// -----------------------------------------------------------------------
// Sessions
// -----------------------------------------------------------------------

fn metadata() -> ServerMetadata {
    ServerMetadata {
        generation: 3,
        bucket_count: 64,
        regions: vec![RegionMetadata {
            vaddr: 0x1000,
            rkey: 9,
            size: 4096,
            region_type: RegionType::LargeObject,
            generation: 3,
        }],
    }
}

#[test]
fn the_fallback_is_the_next_port() {
    assert_eq!(tcp_fallback_addr("10.0.0.1:9400"), "10.0.0.1:9401");
    assert_eq!(tcp_fallback_addr("[::1]:99"), "[::1]:100");
}

#[test]
fn a_session_over_rdma() {
    let mut h = ClientSession::connect("host:9400", 42);
    assert!(matches!(h.action(), SessionAction::OpenControl(a) if a == "host:9400"));
    assert!(matches!(
        h.step(SessionEvent::ControlOpened),
        SessionStep::Perform(SessionAction::AskVersion)
    ));
    assert!(matches!(
        h.step(SessionEvent::Version(1)),
        SessionStep::Perform(SessionAction::Discover)
    ));
    assert!(matches!(
        h.step(SessionEvent::Metadata(metadata())),
        SessionStep::Perform(SessionAction::OpenRdma(_))
    ));
    match h.step(SessionEvent::TransportOpened) {
        SessionStep::Connected(mut session, rdma) => {
            assert!(rdma);
            assert_eq!(session.client_id, 42);
            assert_eq!(session.large_object_region().unwrap().rkey, 9);
            assert!(session.hash_table_region().is_none());
            assert!(session.free_list_region().is_none());
            assert!(matches!(
                session.refresh_metadata(Err("gone".to_string())),
                Err(ClientSessionError::Grpc(_))
            ));
            assert_eq!(session.metadata().generation, 3);
            let h = session.reconnect();
            assert!(matches!(h.action(), SessionAction::Discover));
            assert_eq!(session.metadata().generation, 0);
        }
        other => panic!("unexpected step {other:?}"),
    }
}

#[test]
fn a_session_falls_back_to_tcp() {
    let mut h = ClientSession::connect("host:9400", 1);
    h.step(SessionEvent::ControlOpened);
    h.step(SessionEvent::Version(2));
    h.step(SessionEvent::Metadata(metadata()));
    assert!(matches!(
        h.step(SessionEvent::TransportFailed(RdmaError::NotConnected)),
        SessionStep::Perform(SessionAction::OpenTcp(a)) if a == "host:9401"
    ));
    match h.step(SessionEvent::TransportFailed(RdmaError::Timeout)) {
        SessionStep::Failed(e) => assert_eq!(
            e.message(),
            "RDMA error: internal error: TCP fallback: operation timed out"
        ),
        other => panic!("unexpected step {other:?}"),
    }
}

#[test]
fn an_old_server_is_refused() {
    let mut h = ClientSession::connect("host:9400", 1);
    h.step(SessionEvent::ControlOpened);
    match h.step(SessionEvent::Version(0)) {
        SessionStep::Failed(ClientSessionError::VersionMismatch(m)) => assert_eq!(
            m,
            "Server version 0 is incompatible; minimum required is 1"
        ),
        other => panic!("unexpected step {other:?}"),
    }
}

#[test]
fn control_plane_errors_end_the_handshake() {
    let mut h = ClientSession::connect("host:9400", 1);
    assert!(matches!(
        h.step(SessionEvent::ControlFailed("refused".to_string())),
        SessionStep::Failed(ClientSessionError::Transport(_))
    ));
    let mut h = ClientSession::connect("host:9400", 1);
    h.step(SessionEvent::ControlOpened);
    assert!(matches!(
        h.step(SessionEvent::StatusError("no".to_string())),
        SessionStep::Failed(ClientSessionError::Grpc(_))
    ));
}
