//! RDMA runtime: work requests of the async operations, and the decisions of the
//! polling threads.
//!
//! 1. A dedicated thread polls Completion Queues
//! 2. Completed work is dispatched to the waiting operations
//!
//! The threads themselves, and the channels that wake the waiting operations, are
//! the caller's.

/// Polling: dispatch of completions, and what the pollers do next
pub mod poller;

/// Async RDMA operation primitives: read, write and compare-and-swap
pub mod ops;
