//! LMCache L2 connector: a key-value cache in batches.
//!
//! [`native`] holds the state behind the batch operations `get`, `set`, `exists`
//! and `delete` and their completions; [`director`] decides what is reported to
//! a Director service.

/// Batch operations and their completions
pub mod native;

/// Reports of cache operations
pub mod director;
