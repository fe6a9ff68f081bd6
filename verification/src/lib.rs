//! One-sided RDMA key-value store.
//!
//! A distributed key-value store built on one-sided RDMA operations
//! (READ/WRITE/CAS). The server CPU participates only in control-plane
//! operations; the data plane runs entirely on the client.

/// Little-endian byte encoding
pub mod codec;

/// The system clock and the monotonic clock
pub mod clock;

/// Decimal text of numbers
pub mod text;

/// XXH64 hashing of keys and payloads
pub mod hash;

/// Shared error types for the entire crate
pub mod error;

/// Public API trait: stable contract between engine core and external consumers
pub mod api;

/// Core KV engine: Cuckoo hashing, dual-mode storage and concurrency control
pub mod engine;

/// Remote memory operations and the TCP fallback
pub mod transport;

/// Client-side one-sided operations
pub mod client;

/// RDMA verbs as plain values
pub mod rdma;

/// HugePages-backed memory
pub mod mem;

/// Dispatch of completions and the polling loops
pub mod runtime;

/// Control plane: discovery, heartbeat, replication and tenants
pub mod control;

/// LMCache connector
pub mod connector;
