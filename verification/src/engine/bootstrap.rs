//! Server engine bootstrap: region layout, table init, free list init, slab init.
//!
//! The Server must initialize all memory regions at startup before clients
//! can connect:
//! 1. Allocate the Cuckoo hash table (zero all buckets)
//! 2. Allocate the Large Object Region (for Extent values)
//! 3. Initialize the free list (empty: all space available)
//! 4. Initialize the slab allocator (fixed-size chunks for vLLM KV Blocks)

use vstd::prelude::*;

use crate::engine::cuckoo;
use crate::engine::cuckoo::CuckooTable;
use crate::engine::cuckoo_laws;
use crate::engine::extent;
use crate::engine::extent::LargeObjectRegion;
use crate::engine::extent_laws;
use crate::engine::layout;
use crate::engine::layout::FreeListHeader;
use crate::engine::slab;
use crate::engine::slab::SlabAllocator;

verus! {

/// The fully bootstrapped server-side engine.
pub struct BootstrappedEngine {
    pub table: CuckooTable,
    pub large_objects: LargeObjectRegion,
    pub free_list: FreeListHeader,
    /// Fixed-size chunk allocator for vLLM KV Block alignment.
    pub slab: SlabAllocator,
}

/// Engine statistics for monitoring.
#[derive(Debug, Clone, Copy)]
pub struct EngineStats {
    pub bucket_count: u64,
    pub large_object_capacity: u64,
    pub large_object_used: u64,
    pub free_list_used: u64,
    /// Number of chunks in the slab allocator.
    pub slab_total_chunks: u64,
    /// Number of currently-allocated slab chunks.
    pub slab_allocated_chunks: u64,
    /// Number of free slab chunks.
    pub slab_free_chunks: u64,
}

impl BootstrappedEngine {
    /// Every part of the engine is well formed.
    pub open spec fn wf(&self) -> bool {
        &&& self.table.wf()
        &&& self.large_objects.wf()
        &&& self.slab.wf()
    }

    /// Nothing is stored yet: every bucket is zero, no extent was allocated and
    /// the region is zero, the shared header is zero, and no chunk is in use.
    pub open spec fn pristine(&self) -> bool {
        &&& self.table@ == cuckoo::empty_table(self.table@.len())
        &&& self.large_objects@ == extent::empty_region(self.large_objects.size as nat)
        &&& extent::sound(self.large_objects@)
        &&& self.free_list.bump_offset == 0
        &&& self.free_list._pad@ == Seq::new(56, |i: int| 0u8)
        &&& slab::sound(self.slab@)
        &&& self.slab@.next_chunk == 0
        &&& self.slab@.free_chunks == Seq::<u64>::empty()
    }

    /// Bootstrap the engine with the given configuration.
    ///
    /// # Arguments
    /// * `bucket_count`: must be a power of 2, >= expected_max_keys * 2
    /// * `large_object_region_size`: total bytes for Extent storage
    /// * `max_kick`: kick chain limit (default 16)
    pub fn bootstrap(bucket_count: u64, large_object_region_size: usize, max_kick: u32) -> (r: Self)
        requires
            cuckoo::power_of_two(bucket_count as int),
            bucket_count <= usize::MAX,
        ensures
            r.wf(),
            r.pristine(),
            r.table@ == cuckoo::empty_table(bucket_count as nat),
            r.table.kick_limit() == max_kick,
            r.large_objects.size == large_object_region_size,
            r.large_objects@ == extent::empty_region(large_object_region_size as nat),
            r.slab@.chunk_size == 0,
            r.slab@.total_chunks == 0,
    {
        Self::bootstrap_with_slab(bucket_count, large_object_region_size, max_kick, 0, 0)
    }

    /// Bootstrap the engine with slab allocator support.
    ///
    /// # Arguments
    /// * `bucket_count`: must be a power of 2, >= expected_max_keys * 2
    /// * `large_object_region_size`: total bytes for Extent storage
    /// * `max_kick`: kick chain limit (default 16)
    /// * `slab_chunk_size`: size of each slab chunk in bytes (0 to disable slab)
    /// * `slab_region_size`: total bytes available for slab chunks
    pub fn bootstrap_with_slab(
        bucket_count: u64,
        large_object_region_size: usize,
        max_kick: u32,
        slab_chunk_size: u64,
        slab_region_size: usize,
    ) -> (r: Self)
        requires
            cuckoo::power_of_two(bucket_count as int),
            bucket_count <= usize::MAX,
            slab_chunk_size + 7 <= u64::MAX,
        ensures
            r.wf(),
            r.pristine(),
            r.table@ == cuckoo::empty_table(bucket_count as nat),
            r.table.kick_limit() == max_kick,
            r.large_objects.size == large_object_region_size,
            r.large_objects@ == extent::empty_region(large_object_region_size as nat),
            r.slab@.chunk_size == slab::aligned_chunk(slab_chunk_size),
            r.slab@.total_chunks == slab::chunks_in(
                slab_region_size as int,
                slab::aligned_chunk(slab_chunk_size),
            ),
    {
        let table = CuckooTable::new(bucket_count, max_kick);
        let large_objects = LargeObjectRegion::new(large_object_region_size);
        // The bump offset is zero: all space is available.
        let free_list = FreeListHeader::zeroed();
        let slab = SlabAllocator::new(slab_region_size, slab_chunk_size);
        proof {
            extent_laws::law_empty_region_is_sound(large_objects@);
            slab.lemma_bounds();
        }
        BootstrappedEngine { table, large_objects, free_list, slab }
    }

    /// Get the hash table bucket count.
    pub fn bucket_count(&self) -> (n: u64)
        requires
            self.wf(),
        ensures
            n == self.table@.len(),
    {
        self.table.bucket_count()
    }

    /// Get the large object region size.
    pub fn large_object_capacity(&self) -> (n: u64)
        ensures
            n == self.large_objects.size,
    {
        self.large_objects.capacity()
    }

    /// Get the number of chunks in the slab allocator.
    pub fn slab_chunk_count(&self) -> (n: u64)
        ensures
            n == self.slab@.total_chunks,
    {
        self.slab.total_chunks()
    }

    /// Collect a snapshot of engine statistics.
    pub fn stats(&self) -> (s: EngineStats)
        requires
            self.wf(),
            forall|order: Seq<u64>| #[trigger]
                extent::enumerates(order, self.large_objects@.allocated) ==> extent::occupied_sum(
                    self.large_objects@.buffer,
                    order,
                ) <= u64::MAX,
            self.slab@.free_chunks.len() <= self.slab@.next_chunk,
        ensures
            s.bucket_count == self.table@.len(),
            s.large_object_capacity == self.large_objects.size,
            forall|order: Seq<u64>| #[trigger]
                extent::enumerates(order, self.large_objects@.allocated) ==> extent::occupied_sum(
                    self.large_objects@.buffer,
                    order,
                ) == s.large_object_used,
            s.free_list_used == self.free_list.bump_offset,
            s.slab_total_chunks == self.slab@.total_chunks,
            s.slab_allocated_chunks == self.slab@.next_chunk - self.slab@.free_chunks.len(),
            s.slab_free_chunks + s.slab_allocated_chunks == s.slab_total_chunks,
    {
        EngineStats {
            bucket_count: self.bucket_count(),
            large_object_capacity: self.large_objects.capacity(),
            large_object_used: self.large_objects.used_bytes(),
            free_list_used: self.free_list.bump_offset,
            slab_total_chunks: self.slab.total_chunks(),
            slab_allocated_chunks: self.slab.allocated_count(),
            slab_free_chunks: self.slab.free_count(),
        }
    }
}

/// The table of an engine that was just bootstrapped with at least two buckets
/// represents the empty map.
pub proof fn law_bootstrapped_table_is_empty(engine: BootstrappedEngine)
    requires
        engine.wf(),
        engine.pristine(),
        engine.table@.len() >= 2,
    ensures
        cuckoo_laws::valid(engine.table@),
        cuckoo_laws::contents(engine.table@) == Map::<
            cuckoo_laws::Key,
            cuckoo_laws::Value,
        >::empty(),
{
    engine.table.lemma_wf();
    assert forall|i: int| 0 <= i < engine.table@.len() implies layout::vacant(
        #[trigger] engine.table@[i],
    ) by {
        assert(engine.table@[i] == layout::zero_slot());
    }
    cuckoo_laws::law_empty_table(engine.table@);
}

/// An engine that was just bootstrapped has all its room: no extent is allocated and
/// the shared header and the chunk counter stand at the start.
pub proof fn law_bootstrapped_engine_has_its_room(engine: BootstrappedEngine)
    requires
        engine.pristine(),
    ensures
        engine.large_objects@.buffer.len() == engine.large_objects.size,
        forall|i: int|
            0 <= i < engine.large_objects@.buffer.len() ==> #[trigger] engine.large_objects@.buffer[i]
                == 0,
        engine.large_objects@.allocated == Set::<u64>::empty(),
        engine.large_objects@.next_offset == 0,
        engine.free_list.bump_offset == 0,
        engine.slab@.next_chunk == 0,
        engine.slab@.free_chunks.len() == 0,
        forall|i: int| 0 <= i < engine.table@.len() ==> (#[trigger] engine.table@[i]).hash == 0
            && engine.table@[i].lock == 0,
{
}

} // verus!
