//! Client-side one-sided operations.

/// Read path: Inline 1-RTT, Extent 2-RTT
pub mod read;

/// Read path over remote memory
pub mod remote_read;

/// Write path: Cuckoo insert with kick chain
pub mod write;
pub mod write_laws;

/// Write path over remote memory
pub mod remote_write;
pub mod remote_laws;

/// Fast reads, batched writes and performance counters
pub mod opt;

/// Retry policy and tracking of pending operations
pub mod retry;

/// Session: connect and reconnect handshakes, cached server metadata
pub mod session;
