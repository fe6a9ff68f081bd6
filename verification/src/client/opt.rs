//! Performance optimizations for RDMA client operations.
//!
//! Three optimizations that target latency and throughput:
//!
//! 1. **Inline Fast Path**: wraps [`ClientReader::get`] for callers that only
//!    want the value.
//! 2. **SGE Batch Posting**: accumulates multiple write requests and
//!    flushes them in a single batch to amortize `post_send` overhead.
//! 3. **Poller Statistics**: counters for poller throughput and latency
//!    to enable runtime tuning.

use vstd::prelude::*;

use crate::client::read;
use crate::client::read::{ClientReader, Found};
use crate::client::write::{ClientWriter, WriteResult};
use crate::client::write_laws;
use crate::engine::cuckoo;
use crate::engine::cuckoo_laws;
use crate::engine::cuckoo_laws::Key;
use crate::engine::extent;
use crate::engine::extent::{LargeObjectRegion, RegionState};
use crate::engine::extent_laws;
use crate::engine::layout;
use crate::engine::layout::{BucketMode, HashBucket, HashedKey, Slot};
use crate::error::ErrorView;

verus! {

/// Performance-optimized client read path.
///
/// Wraps the standard [`ClientReader`] with a convenience helper for the inline
/// fast path.
pub struct OptimizedClientReader;

impl OptimizedClientReader {
    /// Read with inline fast path detection.
    ///
    /// Returns `Some((value, mode))` if the key is found (unlocked, alive).
    /// Returns `None` if the key is not found, the bucket is locked, or the
    /// read fails.
    ///
    /// # Fast path
    ///
    /// When the value fits in 32 bytes (**Inline** mode) AND the key matches
    /// at h1, this completes in 1 RTT in distributed mode (no h2 probe, no
    /// extent read).
    pub fn get_fast(
        key: &HashedKey,
        buckets: &[HashBucket],
        large_objects: Option<&LargeObjectRegion>,
        bucket_count: u64,
    ) -> (r: Option<(Vec<u8>, BucketMode)>)
        ensures
            ({
                let found = read::get_of(
                    layout::slots(buckets@),
                    read::region_view(large_objects),
                    key.hash,
                    key.digest@,
                    bucket_count,
                );
                match r {
                    Some((value, mode)) => found == Ok::<Option<Found>, ErrorView>(
                        Some((value@, mode == BucketMode::Extent)),
                    ),
                    None => found matches Ok(Some(_)) ==> false,
                }
            }),
    {
        match ClientReader::get(key, buckets, large_objects, bucket_count) {
            Ok(Some(found)) => Some((found.value, found.mode)),
            _ => None,
        }
    }
}

// ---------------------------------------------------------------------------
// SGE Batch Posting
// ---------------------------------------------------------------------------
/// A write that waits in a batch: key, value, and whether it is in Extent mode.
pub type PendingWrite = (HashedKey, Seq<u8>, bool);

/// The table and the region after some writes of a batch, and how many of them
/// placed their key.
pub struct Flushed {
    pub table: Seq<Slot>,
    pub region: Option<RegionState>,
    pub placed: nat,
}

/// The writes of a batch, one after the other.
pub open spec fn flush_of(
    t: Seq<Slot>,
    region: Option<RegionState>,
    pending: Seq<PendingWrite>,
    n: int,
) -> Flushed
    decreases pending.len(),
{
    if pending.len() == 0 {
        Flushed { table: t, region, placed: 0 }
    } else {
        let before = flush_of(t, region, pending.drop_last(), n);
        let (key, value, extent) = pending.last();
        let w = crate::client::write::write_of(
            before.table,
            key,
            value,
            extent,
            before.region,
            n,
        );
        Flushed {
            table: w.table,
            region: w.region,
            placed: if w.outcome is Placed {
                before.placed + 1
            } else {
                before.placed
            },
        }
    }
}

/// No write of the batch, when its turn comes, finds a freed extent that leaves
/// the region.
pub open spec fn flush_ready(
    t: Seq<Slot>,
    region: Option<RegionState>,
    pending: Seq<PendingWrite>,
    n: int,
) -> bool {
    forall|i: int|
        0 <= i < pending.len() && (#[trigger] pending[i]).2 ==> (flush_of(
            t,
            region,
            pending.take(i),
            n,
        ).region matches Some(r) ==> crate::client::write::region_ready(r, pending[i].1))
}

/// Builds a batch of writes.
///
/// A local table takes them by single inserts, see
/// [`flush_local`](Self::flush_local); for the distributed table they are posted
/// as a chain of work requests, see [`crate::rdma::qp`].
pub struct BatchBuilder {
    /// Pending write requests: (key, value, mode)
    pending: Vec<(HashedKey, Vec<u8>, BucketMode)>,
    /// Maximum batch size
    max_batch: usize,
}

/// The pending writes as values.
pub open spec fn pending_writes(pending: Seq<(HashedKey, Vec<u8>, BucketMode)>) -> Seq<
    PendingWrite,
> {
    Seq::new(
        pending.len(),
        |i: int| (pending[i].0, pending[i].1@, pending[i].2 == BucketMode::Extent),
    )
}

impl View for BatchBuilder {
    type V = Seq<PendingWrite>;

    closed spec fn view(&self) -> Seq<PendingWrite> {
        pending_writes(self.pending@)
    }
}

impl BatchBuilder {
    /// The batch size from which on the batch counts as full.
    pub closed spec fn capacity(&self) -> usize {
        self.max_batch
    }

    /// Create a new batch builder with the given maximum batch size.
    pub fn new(max_batch: usize) -> (b: Self)
        ensures
            b@ == Seq::<PendingWrite>::empty(),
            b.capacity() == max_batch,
    {
        let b = BatchBuilder { pending: Vec::new(), max_batch };
        assert(b@ =~= Seq::<PendingWrite>::empty());
        b
    }

    /// Add a write to the batch.
    ///
    /// Does **not** automatically flush when the batch is full; the caller
    /// should check [`is_full`](Self::is_full) and call [`flush_local`](Self::flush_local)
    /// explicitly.
    pub fn add(&mut self, key: HashedKey, value: Vec<u8>, mode: BucketMode)
        ensures
            final(self)@ == old(self)@.push((key, value@, mode == BucketMode::Extent)),
            final(self).capacity() == old(self).capacity(),
    {
        self.pending.push((key, value, mode));
        assert(self@ =~= old(self)@.push((key, value@, mode == BucketMode::Extent)));
    }

    /// Check if the batch is at or above capacity.
    pub fn is_full(&self) -> (b: bool)
        ensures
            b == (self@.len() >= self.capacity()),
    {
        self.pending.len() >= self.max_batch
    }

    /// Number of pending entries.
    pub fn len(&self) -> (n: usize)
        ensures
            n == self@.len(),
    {
        self.pending.len()
    }

    /// Returns `true` if there are no pending entries.
    pub fn is_empty(&self) -> (b: bool)
        ensures
            b == (self@.len() == 0),
    {
        self.pending.len() == 0
    }

    /// Flush all pending writes via local `ClientWriter::insert`.
    ///
    /// Each entry is inserted individually.
    ///
    /// Returns the number of writes that succeeded (inserted without error).
    pub fn flush_local(
        &mut self,
        buckets: &mut [HashBucket],
        large_objects: Option<&mut LargeObjectRegion>,
        bucket_count: u64,
    ) -> (success: usize)
        requires
            crate::client::write::slots_in_range(bucket_count as int, old(buckets)@.len() as int),
            large_objects is Some ==> old(large_objects->0).wf(),
            ({
                let before = if large_objects is Some {
                    Some(old(large_objects->0)@)
                } else {
                    None
                };
                flush_ready(
                    layout::slots(old(buckets)@),
                    before,
                    old(self)@,
                    bucket_count as int,
                )
            }),
        ensures
            final(self)@ == Seq::<PendingWrite>::empty(),
            final(self).capacity() == old(self).capacity(),
            ({
                let before = if large_objects is Some {
                    Some(old(large_objects->0)@)
                } else {
                    None
                };
                let f = flush_of(
                    layout::slots(old(buckets)@),
                    before,
                    old(self)@,
                    bucket_count as int,
                );
                &&& layout::slots(final(buckets)@) == f.table
                &&& success == f.placed
                &&& large_objects is Some ==> f.region == Some(final(large_objects->0)@)
                &&& large_objects is Some ==> final(large_objects->0).wf()
            }),
    {
        let success: usize = match large_objects {
            Some(region) => self.flush_into(buckets, region, bucket_count),
            None => self.flush_inline(buckets, bucket_count),
        };
        self.pending = Vec::new();
        assert(self@ =~= Seq::<PendingWrite>::empty());
        success
    }

    /// Performs the pending writes with a region for extents.
    fn flush_into(
        &self,
        buckets: &mut [HashBucket],
        region: &mut LargeObjectRegion,
        bucket_count: u64,
    ) -> (success: usize)
        requires
            crate::client::write::slots_in_range(bucket_count as int, old(buckets)@.len() as int),
            old(region).wf(),
            flush_ready(
                layout::slots(old(buckets)@),
                Some(old(region)@),
                self@,
                bucket_count as int,
            ),
        ensures
            ({
                let f = flush_of(
                    layout::slots(old(buckets)@),
                    Some(old(region)@),
                    self@,
                    bucket_count as int,
                );
                &&& layout::slots(final(buckets)@) == f.table
                &&& success == f.placed
                &&& f.region == Some(final(region)@)
                &&& final(region).wf()
            }),
    {
        let ghost t = layout::slots(buckets@);
        let ghost r = Some(region@);
        let ghost n = bucket_count as int;
        let mut success: usize = 0;
        let mut i: usize = 0;
        while i < self.pending.len()
            invariant
                i <= self.pending@.len(),
                self@.len() == self.pending@.len(),
                success <= i,
                t == layout::slots(old(buckets)@),
                r == Some(old(region)@),
                n == bucket_count as int,
                buckets@.len() == old(buckets)@.len(),
                crate::client::write::slots_in_range(n, buckets@.len() as int),
                region.wf(),
                flush_ready(t, r, self@, n),
                layout::slots(buckets@) == flush_of(t, r, self@.take(i as int), n).table,
                Some(region@) == flush_of(t, r, self@.take(i as int), n).region,
                success == flush_of(t, r, self@.take(i as int), n).placed,
            decreases self.pending@.len() - i,
        {
            assert(self@[i as int].2 == (self.pending@[i as int].2 == BucketMode::Extent));
            let result = ClientWriter::insert(
                &self.pending[i].0,
                &self.pending[i].1,
                self.pending[i].2,
                buckets,
                Some(&mut *region),
                bucket_count,
            );
            proof {
                let done = self@.take(i as int);
                assert(self@.take(i + 1).drop_last() =~= done);
                assert(self@.take(i + 1).last() == self@[i as int]);
                assert(layout::slots(buckets@).len() == buckets@.len());
            }
            if let Ok(WriteResult::Inserted { .. }) = result {
                success = success + 1;
            }
            i = i + 1;
        }
        assert(self@.take(i as int) =~= self@);
        success
    }

    /// Performs the pending writes without a region: those in Extent mode fail.
    fn flush_inline(&self, buckets: &mut [HashBucket], bucket_count: u64) -> (success: usize)
        requires
            crate::client::write::slots_in_range(bucket_count as int, old(buckets)@.len() as int),
        ensures
            ({
                let f = flush_of(
                    layout::slots(old(buckets)@),
                    None,
                    self@,
                    bucket_count as int,
                );
                &&& layout::slots(final(buckets)@) == f.table
                &&& success == f.placed
            }),
    {
        let ghost t = layout::slots(buckets@);
        let ghost n = bucket_count as int;
        let mut success: usize = 0;
        let mut i: usize = 0;
        while i < self.pending.len()
            invariant
                i <= self.pending@.len(),
                self@.len() == self.pending@.len(),
                success <= i,
                t == layout::slots(old(buckets)@),
                n == bucket_count as int,
                buckets@.len() == old(buckets)@.len(),
                crate::client::write::slots_in_range(n, buckets@.len() as int),
                layout::slots(buckets@) == flush_of(t, None, self@.take(i as int), n).table,
                flush_of(t, None, self@.take(i as int), n).region is None,
                success == flush_of(t, None, self@.take(i as int), n).placed,
            decreases self.pending@.len() - i,
        {
            let result = ClientWriter::insert(
                &self.pending[i].0,
                &self.pending[i].1,
                self.pending[i].2,
                buckets,
                None,
                bucket_count,
            );
            proof {
                let done = self@.take(i as int);
                assert(self@.take(i + 1).drop_last() =~= done);
                assert(self@.take(i + 1).last() == self@[i as int]);
                assert(layout::slots(buckets@).len() == buckets@.len());
            }
            if let Ok(WriteResult::Inserted { .. }) = result {
                success = success + 1;
            }
            i = i + 1;
        }
        assert(self@.take(i as int) =~= self@);
        success
    }
}

// ---------------------------------------------------------------------------
// Poller Statistics
// ---------------------------------------------------------------------------
/// Performance statistics collector.
///
/// Tracks read/write/CAS counts, retries, poller iterations, completions,
/// and h1/h2 hit distribution for [`crate::runtime::poller`] tuning.
#[derive(Debug)]
pub struct PerfStats {
    /// Number of read operations
    pub reads: u64,
    /// Number of write operations
    pub writes: u64,
    /// Number of CAS operations
    pub cas_ops: u64,
    /// Number of retries
    pub retries: u64,
    /// Total poll iterations
    pub poll_iters: u64,
    /// Total completions harvested
    pub completions: u64,
    /// Hit at h1 (fast path, 1-RTT in distributed mode)
    pub h1_hits: u64,
    /// Hit at h2 (second probe, 2-RTT in distributed mode)
    pub h2_hits: u64,
}

impl Clone for PerfStats {
    fn clone(&self) -> (r: Self)
        ensures
            r == *self,
    {
        PerfStats {
            reads: self.reads,
            writes: self.writes,
            cas_ops: self.cas_ops,
            retries: self.retries,
            poll_iters: self.poll_iters,
            completions: self.completions,
            h1_hits: self.h1_hits,
            h2_hits: self.h2_hits,
        }
    }
}

impl Default for PerfStats {
    fn default() -> (r: Self)
        ensures
            r == (PerfStats {
                reads: 0,
                writes: 0,
                cas_ops: 0,
                retries: 0,
                poll_iters: 0,
                completions: 0,
                h1_hits: 0,
                h2_hits: 0,
            }),
    {
        PerfStats {
            reads: 0,
            writes: 0,
            cas_ops: 0,
            retries: 0,
            poll_iters: 0,
            completions: 0,
            h1_hits: 0,
            h2_hits: 0,
        }
    }
}

impl PerfStats {
    /// Hit ratio at h1 as a fraction, numerator and denominator (higher is
    /// better: more reads served in 1 RTT). `None` when there were no hits.
    pub fn h1_hit_fraction(&self) -> (r: Option<(u64, u64)>)
        requires
            self.h1_hits + self.h2_hits <= u64::MAX,
        ensures
            match r {
                Some((num, den)) => num == self.h1_hits && den == self.h1_hits + self.h2_hits
                    && den > 0,
                None => self.h1_hits + self.h2_hits == 0,
            },
    {
        let total: u64 = self.h1_hits + self.h2_hits;
        if total == 0 {
            None
        } else {
            Some((self.h1_hits, total))
        }
    }

    /// Read amplification as a fraction: the average number of buckets probed per
    /// read. `None` when there were no hits.
    ///
    /// For a perfect table with no collisions this approaches 1.
    pub fn probe_fraction(&self) -> (r: Option<(u64, u64)>)
        requires
            self.h1_hits + 2 * self.h2_hits <= u64::MAX,
        ensures
            match r {
                Some((num, den)) => num == self.h1_hits + 2 * self.h2_hits && den == self.h1_hits
                    + self.h2_hits && den > 0,
                None => self.h1_hits + self.h2_hits == 0,
            },
    {
        let total: u64 = self.h1_hits + self.h2_hits;
        if total == 0 {
            None
        } else {
            Some((self.h1_hits + 2 * self.h2_hits, total))
        }
    }

    /// Average completions harvested per poll iteration, as a fraction. `None`
    /// when the poller has not run.
    ///
    /// Higher values mean the poller is efficiently batching completions.
    pub fn completion_fraction(&self) -> (r: Option<(u64, u64)>)
        ensures
            match r {
                Some((num, den)) => num == self.completions && den == self.poll_iters && den > 0,
                None => self.poll_iters == 0,
            },
    {
        if self.poll_iters == 0 {
            None
        } else {
            Some((self.completions, self.poll_iters))
        }
    }
}

// ---------------------------------------------------------------------------
// Laws
// ---------------------------------------------------------------------------
/// A sound region takes any batch: no write finds a freed extent that leaves the
/// region, and the region stays sound.
pub proof fn law_sound_region_takes_batch(
    t: Seq<Slot>,
    region: RegionState,
    pending: Seq<PendingWrite>,
    n: int,
)
    requires
        extent::sound(region),
        forall|i: int| 0 <= i < pending.len() ==> (#[trigger] pending[i]).1.len() + 39 <= u64::MAX,
    ensures
        flush_ready(t, Some(region), pending, n),
        flush_of(t, Some(region), pending, n).region matches Some(r) && extent::sound(r),
    decreases pending.len(),
{
    if pending.len() > 0 {
        let earlier = pending.drop_last();
        law_sound_region_takes_batch(t, region, earlier, n);
        let before = flush_of(t, Some(region), earlier, n);
        let (key, value, ext) = pending.last();
        extent_laws::law_allocate(before.region->0, value);
        assert forall|i: int| 0 <= i < pending.len() && (#[trigger] pending[i]).2 implies (flush_of(
            t,
            Some(region),
            pending.take(i),
            n,
        ).region matches Some(r) ==> crate::client::write::region_ready(r, pending[i].1)) by {
            if i < earlier.len() {
                assert(earlier[i] == pending[i]);
                assert(earlier.take(i) =~= pending.take(i));
            } else {
                assert(pending.take(i) =~= earlier);
            }
        }
    }
}

/// The key of a pending write.
pub open spec fn pending_key(w: PendingWrite) -> Key {
    (w.0.hash, w.0.digest@)
}

/// The pending writes are of different keys, none of which the table holds.
pub open spec fn all_new(t: Seq<Slot>, pending: Seq<PendingWrite>) -> bool {
    &&& forall|i: int|
        0 <= i < pending.len() ==> (#[trigger] pending[i]).0.hash != 0 && cuckoo::find_in(
            t,
            pending[i].0.hash,
            pending[i].0.digest@,
        ) is None
    &&& forall|i: int, j: int|
        0 <= i < j < pending.len() ==> pending_key(#[trigger] pending[i]) != pending_key(
            #[trigger] pending[j],
        )
}

/// The pending write is stored in Extent mode: its entry refers to a live extent,
/// which reads as its value.
pub open spec fn extent_stored(
    map: Map<Key, cuckoo_laws::Value>,
    region: RegionState,
    w: PendingWrite,
) -> bool {
    let (off, len) = layout::body_extent_ref(map[pending_key(w)].0);
    &&& len == w.1.len()
    &&& off <= u64::MAX
    &&& region.allocated.contains(off as u64)
    &&& extent::extent_payload(region.buffer, off as int) == Some(w.1)
}

/// The Extent writes of the batch have lengths that an extent header can hold.
pub open spec fn extents_fit(pending: Seq<PendingWrite>) -> bool {
    forall|i: int|
        0 <= i < pending.len() && (#[trigger] pending[i]).2 ==> pending[i].1.len() <= u32::MAX
}

/// The extents that were live before a batch are live and read the same after
/// it.
pub open spec fn extents_kept(before: RegionState, after: RegionState) -> bool {
    forall|a: u64| #[trigger]
        before.allocated.contains(a) ==> after.allocated.contains(a) && extent::extent_payload(
            after.buffer,
            a as int,
        ) == extent::extent_payload(before.buffer, a as int)
}

/// A batch of new keys whose writes all succeed adds exactly those keys to the
/// map, each with its value, and leaves the other entries alone. On a sound
/// region, the reference of every Extent entry reads back its value, and every
/// extent that was live before reads as it did.
pub proof fn law_flush(
    t: Seq<Slot>,
    region: Option<RegionState>,
    pending: Seq<PendingWrite>,
)
    requires
        cuckoo_laws::valid(t),
        all_new(t, pending),
        flush_of(t, region, pending, t.len() as int).placed == pending.len(),
    ensures
        ({
            let f = flush_of(t, region, pending, t.len() as int);
            let (old_map, new_map) = (cuckoo_laws::contents(t), cuckoo_laws::contents(f.table));
            &&& f.table.len() == t.len()
            &&& cuckoo_laws::valid(f.table)
            &&& forall|k: Key| #[trigger]
                new_map.dom().contains(k) <==> old_map.dom().contains(k) || exists|i: int|
                    0 <= i < pending.len() && pending_key(#[trigger] pending[i]) == k
            &&& forall|k: Key| #[trigger]
                old_map.dom().contains(k) ==> new_map.dom().contains(k) && new_map[k] == old_map[k]
            &&& forall|i: int|
                0 <= i < pending.len() ==> {
                    let v = new_map[pending_key(#[trigger] pending[i])];
                    &&& v.1 == pending[i].2
                    &&& !v.1 ==> v.0 == cuckoo::packed(pending[i].1, false)
                }
            &&& region matches Some(r) ==> (extent::sound(r) && extents_fit(pending) ==> {
                &&& f.region is Some
                &&& extent::sound(f.region->0)
                &&& extents_kept(r, f.region->0)
                &&& forall|i: int|
                    0 <= i < pending.len() && (#[trigger] pending[i]).2 ==> extent_stored(
                        new_map,
                        f.region->0,
                        pending[i],
                    )
            })
            &&& region is None ==> forall|i: int|
                0 <= i < pending.len() ==> !(#[trigger] pending[i]).2
        }),
{
    lemma_flush_map(t, region, pending);
    if let Some(r) = region {
        if extent::sound(r) && extents_fit(pending) {
            lemma_flush_extents(t, r, pending);
        }
    } else {
        lemma_flush_without_region(t, pending, t.len() as int);
    }
}

/// Without a region no Extent write of a batch succeeds.
proof fn lemma_flush_without_region(t: Seq<Slot>, pending: Seq<PendingWrite>, n: int)
    requires
        flush_of(t, None, pending, n).placed == pending.len(),
    ensures
        flush_of(t, None, pending, n).region is None,
        forall|i: int| 0 <= i < pending.len() ==> !(#[trigger] pending[i]).2,
    decreases pending.len(),
{
    if pending.len() > 0 {
        let earlier = pending.drop_last();
        lemma_placed_bound(t, None, earlier, n);
        lemma_flush_without_region(t, earlier, n);
        assert forall|i: int| 0 <= i < pending.len() implies !(#[trigger] pending[i]).2 by {
            if i < earlier.len() {
                assert(earlier[i] == pending[i]);
            }
        }
    }
}

/// A shorter batch of new keys is one too.
proof fn lemma_all_new_earlier(t: Seq<Slot>, pending: Seq<PendingWrite>)
    requires
        all_new(t, pending),
        pending.len() > 0,
    ensures
        all_new(t, pending.drop_last()),
{
    let earlier = pending.drop_last();
    assert forall|i: int| 0 <= i < earlier.len() implies (#[trigger] earlier[i]).0.hash != 0
        && cuckoo::find_in(t, earlier[i].0.hash, earlier[i].0.digest@) is None by {
        assert(earlier[i] == pending[i]);
    }
    assert forall|i: int, j: int| 0 <= i < j < earlier.len() implies pending_key(
        #[trigger] earlier[i],
    ) != pending_key(#[trigger] earlier[j]) by {
        assert(earlier[i] == pending[i] && earlier[j] == pending[j]);
    }
}

/// What [`law_flush`] says of the region, for a sound region and lengths that
/// an extent header can hold.
proof fn lemma_flush_extents(t: Seq<Slot>, region: RegionState, pending: Seq<PendingWrite>)
    requires
        cuckoo_laws::valid(t),
        all_new(t, pending),
        flush_of(t, Some(region), pending, t.len() as int).placed == pending.len(),
        extent::sound(region),
        extents_fit(pending),
    ensures
        ({
            let f = flush_of(t, Some(region), pending, t.len() as int);
            let map = cuckoo_laws::contents(f.table);
            &&& f.region is Some
            &&& extent::sound(f.region->0)
            &&& extents_kept(region, f.region->0)
            &&& forall|i: int|
                0 <= i < pending.len() && (#[trigger] pending[i]).2 ==> extent_stored(
                    map,
                    f.region->0,
                    pending[i],
                )
        }),
    decreases pending.len(),
{
    let n = t.len() as int;
    if pending.len() > 0 {
        let earlier = pending.drop_last();
        let before = flush_of(t, Some(region), earlier, n);
        let last = pending.last();
        assert(pending[pending.len() - 1] == last);
        lemma_placed_bound(t, Some(region), earlier, n);
        lemma_all_new_earlier(t, pending);
        assert forall|i: int| 0 <= i < earlier.len() && (#[trigger] earlier[i]).2 implies
            earlier[i].1.len() <= u32::MAX by {
            assert(earlier[i] == pending[i]);
        }
        lemma_flush_extents(t, region, earlier);
        lemma_flush_map(t, Some(region), earlier);
        let k = pending_key(last);
        let mid = cuckoo_laws::contents(before.table);
        assert(!mid.dom().contains(k)) by {
            assert(!cuckoo_laws::contents(t).dom().contains(k));
            if exists|i: int| 0 <= i < earlier.len() && pending_key(#[trigger] earlier[i]) == k {
                let i = choose|i: int|
                    0 <= i < earlier.len() && pending_key(#[trigger] earlier[i]) == k;
                assert(earlier[i] == pending[i]);
            }
        }
        let held = before.region->0;
        write_laws::law_write(before.table, last.0, last.1, last.2, before.region);
        let f = flush_of(t, Some(region), pending, n);
        let map = cuckoo_laws::contents(f.table);
        if last.2 {
            write_laws::lemma_not_found_is_absent(before.table, k);
            write_laws::lemma_placed_entry(before.table, last.0, last.1, true, before.region);
            extent_laws::law_allocate(held, last.1);
        }
        let after = f.region->0;
        assert(extents_kept(held, after));
        assert forall|i: int| 0 <= i < pending.len() && (#[trigger] pending[i]).2 implies
            extent_stored(map, after, pending[i]) by {
            if i < earlier.len() {
                assert(earlier[i] == pending[i]);
                assert(extent_stored(mid, held, earlier[i]));
                assert(pending_key(pending[i]) != k);
            }
        }
    }
}

/// What [`law_flush`] says of the map.
proof fn lemma_flush_map(
    t: Seq<Slot>,
    region: Option<RegionState>,
    pending: Seq<PendingWrite>,
)
    requires
        cuckoo_laws::valid(t),
        all_new(t, pending),
        flush_of(t, region, pending, t.len() as int).placed == pending.len(),
    ensures
        ({
            let u = flush_of(t, region, pending, t.len() as int).table;
            let (old_map, new_map) = (cuckoo_laws::contents(t), cuckoo_laws::contents(u));
            &&& u.len() == t.len()
            &&& cuckoo_laws::valid(u)
            &&& forall|k: Key| #[trigger]
                new_map.dom().contains(k) <==> old_map.dom().contains(k) || exists|i: int|
                    0 <= i < pending.len() && pending_key(#[trigger] pending[i]) == k
            &&& forall|k: Key| #[trigger]
                old_map.dom().contains(k) ==> new_map.dom().contains(k) && new_map[k] == old_map[k]
            &&& forall|i: int|
                0 <= i < pending.len() ==> {
                    let v = new_map[pending_key(#[trigger] pending[i])];
                    &&& v.1 == pending[i].2
                    &&& !v.1 ==> v.0 == cuckoo::packed(pending[i].1, false)
                }
        }),
    decreases pending.len(),
{
    let n = t.len() as int;
    if pending.len() > 0 {
        let earlier = pending.drop_last();
        let before = flush_of(t, region, earlier, n);
        let last = pending.last();
        lemma_placed_bound(t, region, earlier, n);
        lemma_all_new_earlier(t, pending);
        lemma_flush_map(t, region, earlier);
        let k = pending_key(last);
        assert(pending[pending.len() - 1] == last);
        let mid = cuckoo_laws::contents(before.table);
        assert(!mid.dom().contains(k)) by {
            assert(!cuckoo_laws::contents(t).dom().contains(k));
            if exists|i: int|
                0 <= i < earlier.len() && pending_key(#[trigger] earlier[i]) == k {
                let i = choose|i: int|
                    0 <= i < earlier.len() && pending_key(#[trigger] earlier[i]) == k;
                assert(earlier[i] == pending[i]);
            }
        }
        write_laws::law_write(before.table, last.0, last.1, last.2, before.region);
        let u = flush_of(t, region, pending, n).table;
        let new_map = cuckoo_laws::contents(u);
        let old_map = cuckoo_laws::contents(t);
        assert forall|x: Key| #[trigger] new_map.dom().contains(x) <==> old_map.dom().contains(x)
            || exists|i: int| 0 <= i < pending.len() && pending_key(#[trigger] pending[i]) == x by {
            if x == k {
                assert(pending_key(pending[pending.len() - 1]) == x);
            } else {
                assert(new_map.dom().contains(x) == mid.dom().contains(x));
                if exists|i: int|
                    0 <= i < earlier.len() && pending_key(#[trigger] earlier[i]) == x {
                    let i = choose|i: int|
                        0 <= i < earlier.len() && pending_key(#[trigger] earlier[i]) == x;
                    assert(pending[i] == earlier[i]);
                }
                if exists|i: int|
                    0 <= i < pending.len() && pending_key(#[trigger] pending[i]) == x {
                    let i = choose|i: int|
                        0 <= i < pending.len() && pending_key(#[trigger] pending[i]) == x;
                    assert(i < earlier.len());
                    assert(pending[i] == earlier[i]);
                }
            }
        }
        assert forall|i: int| 0 <= i < pending.len() implies ({
            let v = new_map[pending_key(#[trigger] pending[i])];
            &&& v.1 == pending[i].2
            &&& !v.1 ==> v.0 == cuckoo::packed(pending[i].1, false)
        }) by {
            if i < earlier.len() {
                assert(earlier[i] == pending[i]);
                assert(pending_key(pending[i]) != k);
            }
        }
    }
}

/// No batch places more keys than it has.
proof fn lemma_placed_bound(
    t: Seq<Slot>,
    region: Option<RegionState>,
    pending: Seq<PendingWrite>,
    n: int,
)
    ensures
        flush_of(t, region, pending, n).placed <= pending.len(),
    decreases pending.len(),
{
    if pending.len() > 0 {
        lemma_placed_bound(t, region, pending.drop_last(), n);
    }
}

/// A batch is flushed write by write, none of them passed over: flushing two batches one
/// after the other has the effect of flushing them as one, and places as many keys,
/// whatever becomes of the single writes.
pub proof fn law_flush_in_parts(
    t: Seq<Slot>,
    region: Option<RegionState>,
    first: Seq<PendingWrite>,
    second: Seq<PendingWrite>,
    n: int,
)
    ensures
        ({
            let a = flush_of(t, region, first, n);
            let b = flush_of(a.table, a.region, second, n);
            let all = flush_of(t, region, first + second, n);
            &&& all.table == b.table
            &&& all.region == b.region
            &&& all.placed == a.placed + b.placed
        }),
    decreases second.len(),
{
    if second.len() == 0 {
        assert(first + second =~= first);
    } else {
        law_flush_in_parts(t, region, first, second.drop_last(), n);
        assert((first + second).drop_last() =~= first + second.drop_last());
        assert((first + second).last() == second.last());
    }
}

/// A batch of one write is that write: it counts exactly when the key was placed. An
/// empty batch changes nothing.
pub proof fn law_flush_of_one(
    t: Seq<Slot>,
    region: Option<RegionState>,
    write: PendingWrite,
    n: int,
)
    ensures
        ({
            let w = crate::client::write::write_of(t, write.0, write.1, write.2, region, n);
            let f = flush_of(t, region, seq![write], n);
            &&& f.table == w.table
            &&& f.region == w.region
            &&& f.placed == if w.outcome is Placed {
                1nat
            } else {
                0nat
            }
            &&& flush_of(t, region, Seq::empty(), n) == (Flushed { table: t, region, placed: 0 })
        }),
{
    assert(seq![write].drop_last() =~= Seq::<PendingWrite>::empty());
    reveal_with_fuel(flush_of, 2);
}

} // verus!
