//! RDMA verbs as plain values: work requests, completions, queue pair
//! transitions and the health of a queue pair.
//!
//! The device itself is driven by the caller; what is handed to it and what is
//! made of its answers is decided here.

/// Devices: opening the first one, and its attributes
pub mod context;

/// Protection domains
pub mod pd;

/// Memory regions and access rights
pub mod mr;

/// Queue pairs: attributes of the transitions, and posting work requests
pub mod qp;

/// Completion queues: the completions that were polled
pub mod cq;

/// Queue pair error state recovery
pub mod qp_recovery;
