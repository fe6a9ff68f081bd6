//! Fixed-size chunk allocator for vLLM KV Block alignment.
//!
//! Provides O(1) allocation of fixed-size chunks from a pre-allocated
//! contiguous region.

use vstd::prelude::*;

use crate::engine::extent;

verus! {

/// The state of a slab allocator.
#[verifier::ext_equal]
pub struct SlabState {
    /// Chunk size in bytes.
    pub chunk_size: int,
    /// Total number of chunks in the region.
    pub total_chunks: int,
    /// Chunks handed out by bump allocation so far.
    pub next_chunk: int,
    /// Freed chunk indices, the next to be reused last.
    pub free_chunks: Seq<u64>,
}

/// The chunk size that a request for `chunk_size` bytes gives.
pub open spec fn aligned_chunk(chunk_size: u64) -> int {
    extent::rounded_up(chunk_size as int, 8)
}

/// How many chunks fit in a region.
pub open spec fn chunks_in(region_size: int, chunk: int) -> int {
    if chunk > 0 {
        region_size / chunk
    } else {
        0
    }
}

/// Allocation of a chunk: the chunk that was freed last, else the next fresh
/// one, else none.
pub open spec fn allocate_of(s: SlabState) -> (SlabState, Option<u64>) {
    if s.free_chunks.len() > 0 {
        (SlabState { free_chunks: s.free_chunks.drop_last(), ..s }, Some(s.free_chunks.last()))
    } else if s.next_chunk < s.total_chunks {
        (SlabState { next_chunk: s.next_chunk + 1, ..s }, Some(s.next_chunk as u64))
    } else {
        (s, None)
    }
}

/// Freeing a chunk.
pub open spec fn free_of(s: SlabState, chunk_index: u64) -> SlabState {
    SlabState { free_chunks: s.free_chunks.push(chunk_index), ..s }
}

/// The chunk was handed out and has not been freed since.
pub open spec fn in_use(s: SlabState, chunk_index: u64) -> bool {
    chunk_index < s.next_chunk && !s.free_chunks.contains(chunk_index)
}

/// Only chunks that were handed out were freed, and none of them twice.
pub open spec fn sound(s: SlabState) -> bool {
    &&& 0 <= s.next_chunk <= s.total_chunks <= u64::MAX
    &&& s.free_chunks.no_duplicates()
    &&& forall|i: int|
        0 <= i < s.free_chunks.len() ==> (#[trigger] s.free_chunks[i]) < s.next_chunk
}

/// Chunk size, chunk count and capacity of a region. The product of the two
/// never exceeds the region.
fn chunk_layout(region_size: usize, chunk_size: u64) -> (r: (u64, u64, u64))
    requires
        chunk_size + 7 <= u64::MAX,
    ensures
        r.0 == aligned_chunk(chunk_size),
        r.1 == chunks_in(region_size as int, r.0 as int),
        r.2 == r.1 * r.0,
        r.2 <= region_size,
{
    let chunk: u64 = extent::align_up(chunk_size, 8);
    let total: u64 = if chunk > 0 {
        region_size as u64 / chunk
    } else {
        0
    };
    proof {
        if chunk > 0 {
            vstd::arithmetic::div_mod::lemma_fundamental_div_mod(region_size as int, chunk as int);
            vstd::arithmetic::div_mod::lemma_mod_bound(region_size as int, chunk as int);
            assert(total * chunk == chunk * total) by (nonlinear_arith);
        }
        assert(0 <= total * chunk) by (nonlinear_arith)
            requires
                total >= 0,
                chunk >= 0,
        ;
    }
    (chunk, total, total * chunk)
}

/// Fixed-size chunk allocator.
pub struct SlabAllocator {
    /// Chunk size in bytes (aligned to 8).
    chunk_size: u64,
    /// Total number of chunks in the region.
    total_chunks: u64,
    /// Current allocation index.
    next_chunk: u64,
    /// Free chunk indices (for reclamation).
    free_chunks: Vec<u64>,
    /// Total capacity in bytes.
    capacity: u64,
}

impl View for SlabAllocator {
    type V = SlabState;

    closed spec fn view(&self) -> SlabState {
        SlabState {
            chunk_size: self.chunk_size as int,
            total_chunks: self.total_chunks as int,
            next_chunk: self.next_chunk as int,
            free_chunks: self.free_chunks@,
        }
    }
}

impl SlabAllocator {
    /// The sizes fit in a `u64`, and the capacity is that of all chunks.
    pub closed spec fn wf(&self) -> bool {
        &&& self.capacity == self.total_chunks * self.chunk_size
        &&& self.next_chunk <= self.total_chunks
    }

    /// No more chunks were handed out than there are, and their number fits in a
    /// `u64`.
    pub proof fn lemma_bounds(&self)
        requires
            self.wf(),
        ensures
            0 <= self@.next_chunk <= self@.total_chunks <= u64::MAX,
            0 <= self@.chunk_size <= u64::MAX,
    {
    }

    /// Create a new slab allocator.
    ///
    /// `region_size` is the total bytes available for chunks.
    /// `chunk_size` is the size of each chunk (will be 8-byte aligned).
    pub fn new(region_size: usize, chunk_size: u64) -> (r: Self)
        requires
            chunk_size + 7 <= u64::MAX,
        ensures
            r.wf(),
            r@ == (SlabState {
                chunk_size: aligned_chunk(chunk_size),
                total_chunks: chunks_in(region_size as int, aligned_chunk(chunk_size)),
                next_chunk: 0,
                free_chunks: Seq::empty(),
            }),
            r@.total_chunks * r@.chunk_size <= region_size,
    {
        let (chunk_size, total_chunks, capacity): (u64, u64, u64) = chunk_layout(
            region_size,
            chunk_size,
        );
        SlabAllocator { chunk_size, total_chunks, next_chunk: 0, free_chunks: Vec::new(), capacity }
    }

    /// Number of chunks that fit in the region.
    pub fn total_chunks(&self) -> (n: u64)
        ensures
            n == self@.total_chunks,
    {
        self.total_chunks
    }

    /// Allocate a chunk locally. Returns the chunk index (0-based).
    ///
    /// Tries free list first, then bump-allocates.
    pub fn allocate_chunk(&mut self) -> (r: Option<u64>)
        requires
            old(self).wf(),
        ensures
            final(self).wf(),
            (final(self)@, r) == allocate_of(old(self)@),
    {
        if let Some(idx) = self.free_chunks.pop() {
            return Some(idx);
        }
        if self.next_chunk < self.total_chunks {
            let idx: u64 = self.next_chunk;
            self.next_chunk = self.next_chunk + 1;
            Some(idx)
        } else {
            None
        }
    }

    /// Free a previously allocated chunk.
    pub fn free_chunk(&mut self, chunk_index: u64)
        requires
            old(self).wf(),
        ensures
            final(self).wf(),
            final(self)@ == free_of(old(self)@, chunk_index),
    {
        self.free_chunks.push(chunk_index);
    }

    /// Number of allocated chunks.
    pub fn allocated_count(&self) -> (n: u64)
        requires
            self@.free_chunks.len() <= self@.next_chunk,
        ensures
            n == self@.next_chunk - self@.free_chunks.len(),
    {
        self.next_chunk - self.free_chunks.len() as u64
    }

    /// Number of free chunks remaining.
    pub fn free_count(&self) -> (n: u64)
        requires
            self.wf(),
            self@.free_chunks.len() <= self@.next_chunk,
        ensures
            n == self@.total_chunks - (self@.next_chunk - self@.free_chunks.len()),
    {
        self.total_chunks - self.allocated_count()
    }

    /// Compute the byte offset of a chunk in the region.
    ///
    /// `offset = chunk_index * chunk_size`
    pub fn chunk_offset(&self, chunk_index: u64) -> (off: u64)
        requires
            chunk_index * self@.chunk_size <= u64::MAX,
        ensures
            off == chunk_index * self@.chunk_size,
    {
        assert(chunk_index * self.chunk_size >= 0) by (nonlinear_arith);
        chunk_index * self.chunk_size
    }

    /// Capacity in bytes.
    pub fn capacity(&self) -> (c: u64)
        requires
            self.wf(),
        ensures
            c == self@.total_chunks * self@.chunk_size,
    {
        self.capacity
    }
}

// ---------------------------------------------------------------------------
// Laws
// ---------------------------------------------------------------------------
/// A new allocator is sound and has no chunk in use.
pub proof fn law_new_slab(s: SlabState)
    requires
        s.next_chunk == 0,
        s.free_chunks == Seq::<u64>::empty(),
        0 <= s.total_chunks <= u64::MAX,
    ensures
        sound(s),
        forall|i: u64| !in_use(s, i),
{
}

/// An allocation hands out a chunk of the region that was not in use, puts it in
/// use, and changes nothing for the others.
pub proof fn law_allocate_chunk(s: SlabState)
    requires
        sound(s),
    ensures
        sound(allocate_of(s).0),
        allocate_of(s).1 matches Some(idx) ==> {
            &&& idx < s.total_chunks
            &&& !in_use(s, idx)
            &&& forall|i: u64| in_use(allocate_of(s).0, i) <==> (in_use(s, i) || i == idx)
        },
{
    let (t, r) = allocate_of(s);
    if s.free_chunks.len() > 0 {
        let idx = s.free_chunks.last();
        assert(s.free_chunks[s.free_chunks.len() - 1] == idx);
        assert forall|i: u64| t.free_chunks.contains(i) <==> (s.free_chunks.contains(i) && i
            != idx) by {
            if s.free_chunks.contains(i) && i != idx {
                let k = choose|k: int| 0 <= k < s.free_chunks.len() && s.free_chunks[k] == i;
                assert(t.free_chunks[k] == i);
            }
            if t.free_chunks.contains(i) {
                let k = choose|k: int| 0 <= k < t.free_chunks.len() && t.free_chunks[k] == i;
                assert(s.free_chunks[k] == i);
            }
        }
    } else if s.next_chunk < s.total_chunks {
        let idx = s.next_chunk as u64;
        assert(!s.free_chunks.contains(idx));
    }
}

/// Freeing a chunk that is in use takes exactly that chunk out of use.
pub proof fn law_free_chunk(s: SlabState, idx: u64)
    requires
        sound(s),
        in_use(s, idx),
    ensures
        sound(free_of(s, idx)),
        forall|i: u64| in_use(free_of(s, idx), i) <==> (in_use(s, i) && i != idx),
{
    let t = free_of(s, idx);
    assert forall|i: u64| t.free_chunks.contains(i) <==> (s.free_chunks.contains(i) || i == idx) by {
        if s.free_chunks.contains(i) {
            let k = choose|k: int| 0 <= k < s.free_chunks.len() && s.free_chunks[k] == i;
            assert(t.free_chunks[k] == i);
        }
        assert(t.free_chunks[s.free_chunks.len() as int] == idx);
    }
}

/// Freed chunks come back last in, first out.
pub proof fn law_freed_chunk_is_reused_first(s: SlabState, idx: u64)
    ensures
        allocate_of(free_of(s, idx)) == (s, Some(idx)),
{
    assert(s.free_chunks.push(idx).drop_last() =~= s.free_chunks);
}

/// The chunks of a region do not overlap and lie inside it.
pub proof fn law_chunks_disjoint(s: SlabState, i: u64, j: u64)
    requires
        0 <= s.chunk_size,
        i < j < s.total_chunks,
    ensures
        i * s.chunk_size + s.chunk_size <= j * s.chunk_size,
        j * s.chunk_size + s.chunk_size <= s.total_chunks * s.chunk_size,
{
    assert(i * s.chunk_size + s.chunk_size <= j * s.chunk_size) by (nonlinear_arith)
        requires
            i + 1 <= j,
            0 <= s.chunk_size,
    ;
    assert(j * s.chunk_size + s.chunk_size <= s.total_chunks * s.chunk_size) by (nonlinear_arith)
        requires
            j + 1 <= s.total_chunks,
            0 <= s.chunk_size,
    ;
}

/// A sound allocator never counts more freed chunks than it handed out, so
/// allocated and free chunks add up to all chunks.
pub proof fn law_counts(s: SlabState)
    requires
        sound(s),
    ensures
        s.free_chunks.len() <= s.next_chunk <= s.total_chunks,
{
    let ids = s.free_chunks.map_values(|x: u64| x as int);
    assert(ids.no_duplicates());
    ids.unique_seq_to_set();
    let all = vstd::set_lib::set_int_range(0, s.next_chunk);
    vstd::set_lib::lemma_int_range(0, s.next_chunk);
    assert(ids.to_set().subset_of(all)) by {
        assert forall|x: int| ids.to_set().contains(x) implies all.contains(x) by {
            let k = choose|k: int| 0 <= k < ids.len() && ids[k] == x;
            assert(s.free_chunks[k] < s.next_chunk);
        }
    }
    vstd::set_lib::lemma_len_subset(ids.to_set(), all);
}

// ---------------------------------------------------------------------------
// DistributedSlabAllocator: CAS bump allocator over RDMA
// ---------------------------------------------------------------------------
/// Distributed-mode slab allocator using CAS bump protocol.
///
/// In distributed mode the allocator uses the same `bump_offset` CAS protocol as
/// [`DistributedExtentAllocator`](crate::engine::extent::DistributedExtentAllocator).
/// Clients atomically advance a shared `bump_offset` to reserve chunk space
/// without server CPU involvement.
///
/// Freed chunks are returned to the server via `SyncFreeList` RPC and
/// cached in `local_free_chunks` for reuse.
#[derive(Debug)]
pub struct DistributedSlabAllocator {
    /// Chunk size in bytes (aligned to 8).
    pub chunk_size: u64,
    /// Total capacity in bytes.
    pub capacity: u64,
    /// Total number of chunks.
    pub total_chunks: u64,
    /// Locally cached freed chunk indices (from SyncFreeList RPC).
    pub local_free_chunks: Vec<u64>,
}

impl DistributedSlabAllocator {
    /// Create a new distributed slab allocator.
    pub fn new(region_size: usize, chunk_size: u64) -> (r: Self)
        requires
            chunk_size + 7 <= u64::MAX,
        ensures
            r.chunk_size == aligned_chunk(chunk_size),
            r.total_chunks == chunks_in(region_size as int, aligned_chunk(chunk_size)),
            r.capacity == r.total_chunks * r.chunk_size,
            r.capacity <= region_size,
            r.local_free_chunks@ == Seq::<u64>::empty(),
    {
        let (chunk_size, total_chunks, capacity): (u64, u64, u64) = chunk_layout(
            region_size,
            chunk_size,
        );
        DistributedSlabAllocator {
            chunk_size,
            capacity,
            total_chunks,
            local_free_chunks: Vec::new(),
        }
    }
}

/// An allocation is refused only when every chunk of the region is in use.
pub proof fn law_chunks_run_out(s: SlabState)
    requires
        sound(s),
        allocate_of(s).1 is None,
    ensures
        allocate_of(s).0 == s,
        forall|i: u64| i < s.total_chunks ==> #[trigger] in_use(s, i),
{
}

/// The chunk size is the least multiple of eight that holds what was asked for, and the
/// region is cut into as many chunks as fit.
pub proof fn law_chunk_layout(region_size: int, chunk_size: u64)
    requires
        0 <= region_size,
    ensures
        ({
            let chunk = aligned_chunk(chunk_size);
            let n = chunks_in(region_size, chunk);
            &&& chunk % 8 == 0
            &&& chunk_size <= chunk < chunk_size + 8
            &&& chunk_size == 0 ==> n == 0
            &&& chunk_size > 0 ==> n * chunk <= region_size < n * chunk + chunk
        }),
{
    let chunk = aligned_chunk(chunk_size);
    if chunk > 0 {
        vstd::arithmetic::div_mod::lemma_fundamental_div_mod(region_size, chunk);
        vstd::arithmetic::div_mod::lemma_mod_bound(region_size, chunk);
        let n = chunks_in(region_size, chunk);
        assert(n * chunk == chunk * n) by (nonlinear_arith);
    }
}

} // verus!
