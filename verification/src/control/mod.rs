//! Control plane: node discovery, MR metadata broadcast, heartbeat, and fault
//! detection.
//!
//! All control-plane operations are low-frequency and never touch data-plane
//! hot-path memory. The messages are plain values here; the service that carries
//! them is the caller's.

/// Messages of the control plane
pub mod proto;

/// Server side: metadata, client registry, version
pub mod server;

/// Asynchronous replication: backup node via RDMA WRITE
pub mod replication;

/// Multi-tenant namespace isolation via hash-seed mixing
pub mod tenant;
