//! Core KV engine: Cuckoo hashing, dual-mode storage and concurrency control.

/// Data layout: `HashBucket`, extent headers and key types
pub mod layout;

/// Large object region and extent allocator (free list)
pub mod extent;

/// Laws of the large-object region
pub mod extent_laws;

/// Cuckoo hashing: insert, lookup, delete, kick chain
pub mod cuckoo;

/// Laws of the Cuckoo hash table
pub mod cuckoo_laws;

/// Laws of kick chains
pub mod chain_laws;

/// Lock-free concurrency: CAS lock + lease + version-based optimistic reads
pub mod concurrency;

/// Fixed-size chunk allocator for vLLM KV Block alignment
pub mod slab;

/// LRU eviction tracker for cache management
pub mod lru;

/// Epoch-based garbage collector for the extent region
pub mod gc;

/// Server-side engine bootstrap: region layout, table init, free list init
pub mod bootstrap;

/// Memory watermark monitoring and alerting
pub mod watermark;

/// Distributed extent allocation over remote memory
pub mod remote_extent;
