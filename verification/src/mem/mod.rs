//! HugePages-backed memory regions.
//!
//! Large contiguous memory regions, intended for the hash table, large object
//! region, and free list region. All allocation happens at initialization time;
//! pages are locked and registered for RDMA.

/// HugePage-backed memory region with RDMA registration
pub mod region;
