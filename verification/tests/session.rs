//! Client sessions: metadata, errors and reconnects.

use rdmas::client::session::{ClientSessionError, DEFAULT_HEARTBEAT_INTERVAL_MS};
use rdmas::control::proto::{HeartbeatResponse, RegionMetadata, RegionType, ServerMetadata};
use rdmas::error::RdmaError;
use std::collections::HashSet;

#[test]
fn test_client_session_error_display() {
    let err = ClientSessionError::NoDevice;
    assert!(
        err.message().contains("No RDMA device"),
        "NoDevice error should contain 'No RDMA device', got: {err:?}"
    );
}

#[test]
fn test_client_session_error_grpc_display() {
    let err = ClientSessionError::Grpc("test".to_string());
    let display = err.message();
    assert!(
        display.contains("gRPC error"),
        "Grpc error should contain 'gRPC error', got: {display}"
    );
}

#[test]
fn test_client_session_error_rdma_from() {
    let rdma_err = RdmaError::HardwareError("test hw error".to_string());
    let session_err: ClientSessionError = rdma_err.into();
    let display = session_err.message();
    assert!(
        display.contains("RDMA error"),
        "Rdma error should contain 'RDMA error', got: {display}"
    );
}

#[test]
fn test_client_id_uniqueness() {
    // Verify that a simple pseudo-random ID scheme produces no duplicates
    // for a reasonable range. Uses the multiplicative hash
    // (i * 2654435761) % (1 << 32) : a standard Knuth hash.
    let ids: Vec<u64> = (0..100)
        .map(|i| (i * 2654435761u64) % (1u64 << 32))
        .collect();

    let mut seen = HashSet::new();
    for id in &ids {
        assert!(
            seen.insert(*id),
            "Duplicate client ID {id} found : hash collision!"
        );
    }
    assert_eq!(seen.len(), 100);
}

#[test]
fn test_region_type_filter_helpers() {
    // Construct a minimal ServerMetadata with known regions.
    let metadata = ServerMetadata {
        generation: 1,
        bucket_count: 1024,
        regions: vec![
            RegionMetadata {
                vaddr: 0x1000,
                rkey: 101,
                size: 65536,
                region_type: RegionType::HashTable,
                generation: 1,
            },
            RegionMetadata {
                vaddr: 0x20000,
                rkey: 102,
                size: 1048576,
                region_type: RegionType::LargeObject,
                generation: 1,
            },
            RegionMetadata {
                vaddr: 0x120000,
                rkey: 103,
                size: 4096,
                region_type: RegionType::FreeList,
                generation: 1,
            },
        ],
    };

    let hash_region = metadata
        .regions
        .iter()
        .find(|r| r.region_type == RegionType::HashTable);
    assert!(hash_region.is_some());
    assert_eq!(hash_region.unwrap().rkey, 101);

    let large_region = metadata
        .regions
        .iter()
        .find(|r| r.region_type == RegionType::LargeObject);
    assert!(large_region.is_some());
    assert_eq!(large_region.unwrap().rkey, 102);

    let free_region = metadata
        .regions
        .iter()
        .find(|r| r.region_type == RegionType::FreeList);
    assert!(free_region.is_some());
    assert_eq!(free_region.unwrap().rkey, 103);
}

#[test]
fn test_heartbeat_interval_is_reasonable() {
    assert!(DEFAULT_HEARTBEAT_INTERVAL_MS > 0);
}

// ---- Version mismatch error ----

#[test]
fn test_version_mismatch_error_display() {
    let err = ClientSessionError::VersionMismatch(
        "Server version 0 is incompatible; minimum required is 1".to_string(),
    );
    let display = err.message();
    assert!(
        display.contains("version mismatch"),
        "VersionMismatch should contain 'version mismatch', got: {display}"
    );
}

// ---- Generation check ----

#[test]
fn test_check_reconnect_needed_when_reconnect_flag_set() {
    let metadata = ServerMetadata {
        generation: 1,
        bucket_count: 1024,
        regions: vec![],
    };

    // Simulate what a session would do: create metadata, then check response.
    // HeartbeatResponse with reconnect=true
    let response = HeartbeatResponse {
        generation: 1,
        reconnect: true,
        server_version: 1,
    };

    // If reconnect flag is set, we should reconnect.
    assert!(response.reconnect, "reconnect flag should trigger reconnect");

    // If generation differs from metadata, should also reconnect.
    let response_stale = HeartbeatResponse {
        generation: 2,
        reconnect: false,
        server_version: 1,
    };
    let needs = response_stale.generation != metadata.generation;
    assert!(needs, "generation change should trigger reconnect");
}

#[test]
fn test_check_reconnect_not_needed_when_same() {
    let metadata = ServerMetadata {
        generation: 5,
        bucket_count: 1024,
        regions: vec![],
    };

    let response = HeartbeatResponse {
        generation: 5,
        reconnect: false,
        server_version: 1,
    };

    let needs = response.reconnect || response.generation != metadata.generation;
    assert!(!needs, "same generation and no reconnect flag should not trigger reconnect");
}

#[test]
fn test_invalidate_mr_metadata_resets_to_default() {
    let mut metadata = ServerMetadata {
        generation: 5,
        bucket_count: 2048,
        regions: vec![RegionMetadata {
            vaddr: 0x1000,
            rkey: 42,
            size: 4096,
            region_type: RegionType::HashTable,
            generation: 5,
        }],
    };

    // Use the metadata first to avoid unused-assignment warning
    assert_eq!(metadata.generation, 5);
    assert_eq!(metadata.bucket_count, 2048);
    assert!(!metadata.regions.is_empty());

    // Simulate invalidation
    metadata = ServerMetadata::default();

    assert_eq!(metadata.generation, 0);
    assert_eq!(metadata.bucket_count, 0);
    assert!(metadata.regions.is_empty());
}
