//! Public API trait: stable contract between the engine core and external
//! consumers such as the LMCache connector.

use vstd::prelude::*;

use crate::error::RdmaError;

verus! {

/// Stable public interface for the RDMA KV engine.
///
/// The LMCache connector codes against this trait.
///
/// # Multi-Tenant Usage
///
/// To isolate keys between tenants, hash keys through
/// [`TenantNamespace`](crate::control::tenant::TenantNamespace) and use the
/// hashed keys with the operations below.
pub trait KvEngine: Send + Sync {
    /// Read a single key. Returns `None` if the key does not exist.
    fn get(&self, key: &[u8]) -> Result<Option<Vec<u8>>, RdmaError>;

    /// Write a key-value pair. Overwrites if key exists.
    fn put(&self, key: &[u8], value: &[u8]) -> Result<(), RdmaError>;

    /// Delete a key. No-op if key does not exist.
    fn delete(&self, key: &[u8]) -> Result<(), RdmaError>;

    /// Check if a key exists without retrieving the value.
    fn contains_key(&self, key: &[u8]) -> Result<bool, RdmaError>;

    /// Batch read multiple keys.
    fn batch_get(&self, keys: &[&[u8]]) -> Vec<Result<Option<Vec<u8>>, RdmaError>>;

    /// Batch write multiple key-value pairs.
    fn batch_put(&self, kvs: &[(&[u8], &[u8])]) -> Vec<Result<(), RdmaError>>;

    /// Evict up to `n` least-recently-used entries.
    /// Returns the number of entries actually evicted.
    ///
    /// By default nothing is evicted: for engines without LRU.
    fn evict(&self, _n: usize) -> (r: Result<usize, RdmaError>)
        default_ensures
            r matches Ok(n) && n == 0,
    {
        Ok(0)
    }

    /// Get current estimated key count for the engine.
    fn key_count(&self) -> (n: u64)
        default_ensures
            n == 0,
    {
        0
    }
}

} // verus!
