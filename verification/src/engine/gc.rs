//! Epoch-based Garbage Collector for the Large Object Region.
//!
//! Manages the lifecycle of deleted/tombstoned extents.
//! Runs sweep cycles that reclaim extents whose `epoch_mark`
//! has fallen below the minimum active timestamp across all clients.

use vstd::prelude::*;

use crate::engine::concurrency;
use crate::engine::extent;
use crate::engine::extent::{DecodedHeader, LargeObjectRegion, RegionState};
use crate::engine::extent_laws;
use crate::engine::layout::EXTENT_MAGIC;
use crate::engine::lru;
use crate::engine::lru::{LruState, LruTracker};

verus! {

// ---------------------------------------------------------------------------
// Model
// ---------------------------------------------------------------------------
/// The state of a garbage collector.
#[verifier::ext_equal]
pub struct GcState {
    /// Pending deletions: `(offset, epoch_mark)`.
    pub pending: Seq<(u64, u64)>,
    /// Sweep interval in milliseconds.
    pub sweep_interval_ms: u64,
    /// Last sweep timestamp.
    pub last_sweep: u64,
    /// LRU tracker for cache eviction, if there is one.
    pub lru: Option<LruState>,
}

/// A collector that was made at time `now`: nothing is pending, and the time counts
/// as that of its last sweep.
pub open spec fn fresh(sweep_interval_ms: u64, lru: Option<LruState>, now: u64) -> GcState {
    GcState { pending: Seq::empty(), sweep_interval_ms, last_sweep: now, lru }
}

/// The region after every pending deletion was marked, in order. A deletion
/// whose offset holds no extent has no effect.
pub open spec fn mark_all(s: RegionState, pending: Seq<(u64, u64)>) -> RegionState
    decreases pending.len(),
{
    if pending.len() == 0 {
        s
    } else {
        let last = pending.last();
        extent::mark_in(mark_all(s, pending.drop_last()), last.0, last.1).0
    }
}

/// A sweep of `s` with these deletions pending gives `t` and frees `freed`
/// extents.
pub open spec fn swept(
    s: RegionState,
    pending: Seq<(u64, u64)>,
    min_active: u64,
    t: RegionState,
    freed: nat,
) -> bool {
    let marked = mark_all(s, pending);
    exists|order: Seq<u64>|
        #![trigger extent::sweep_in(marked, order, min_active)]
        extent::enumerates(order, marked.allocated) && (t, freed) == extent::sweep_in(
            marked,
            order,
            min_active,
        )
}

/// The keys as pending deletions with the epoch `epoch`.
pub open spec fn scheduled(keys: Seq<u64>, epoch: u64) -> Seq<(u64, u64)> {
    Seq::new(keys.len(), |i: int| (keys[i], epoch))
}

/// An eviction of up to `n` entries: from collector `g` and region `r` to `g2`
/// and `r2`, with `count` entries evicted. The entries that were picked are scheduled
/// for deletion with the epoch `epoch`, on top of what was pending, and a sweep with
/// `min_ts` as the oldest activity follows.
pub open spec fn evicted_at(
    g: GcState,
    r: RegionState,
    n: nat,
    epoch: u64,
    min_ts: u32,
    g2: GcState,
    r2: RegionState,
    count: nat,
) -> bool {
    match g.lru {
        None => g2 == g && r2 == r && count == 0,
        Some(l) => exists|picks: Seq<u64>, l2: LruState|
            #[trigger] lru::selected(l, l2, n, picks) && count == picks.len() && if count == 0 {
                g2 == (GcState { lru: Some(l2), ..g }) && r2 == r
            } else {
                &&& g2 == (GcState {
                    lru: Some(
                        LruState {
                            evicted: ((l2.evicted + count) % 0x1_0000_0000_0000_0000) as u64,
                            ..l2
                        },
                    ),
                    pending: Seq::empty(),
                    ..g
                })
                &&& exists|freed: nat| #[trigger]
                    swept(r, g.pending + scheduled(picks, epoch), min_ts as u64, r2, freed)
            },
    }
}

/// The smallest of some timestamps; zero when there are none.
pub open spec fn least(ts: Seq<u32>) -> u32
    decreases ts.len(),
{
    if ts.len() == 0 {
        0
    } else if ts.len() == 1 || ts.last() <= least(ts.drop_last()) {
        ts.last()
    } else {
        least(ts.drop_last())
    }
}

/// The time since the last sweep, modulo `2^64`: a clock that went back counts
/// as a long time.
pub open spec fn since_sweep(g: GcState, now: u64) -> int {
    (now - g.last_sweep) % 0x1_0000_0000_0000_0000
}

/// The eviction watermark is exceeded.
pub open spec fn over_watermark(g: GcState) -> bool {
    g.lru matches Some(l) && l.key_count > l.watermark
}

/// A number of entries to evict: at least one, and no more than fits in a
/// `usize`.
pub open spec fn batch(n: int) -> nat {
    if n < 1 {
        1
    } else if n > usize::MAX {
        usize::MAX as nat
    } else {
        n as nat
    }
}

/// How many entries an eviction between two sweeps asks for.
pub open spec fn idle_batch(key_count: u64) -> nat {
    batch(
        if key_count == 0 {
            0
        } else {
            (key_count - 1) / 10
        },
    )
}

/// How many entries an eviction during a sweep asks for.
pub open spec fn sweep_batch(key_count: u64) -> nat {
    batch(key_count as int / 10)
}

/// A sweep is due at time `now`: the interval has passed since the last one.
pub open spec fn sweep_due(g: GcState, now: u64) -> bool {
    since_sweep(g, now) >= g.sweep_interval_ms
}

/// One run of the collector at time `now`, with `min_active` as the oldest
/// activity of the clients, and the number that it returns. An eviction goes by the
/// times `epoch` and `min_ts`.
///
/// Before the interval has passed it only evicts, and only over the watermark.
/// Afterwards it notes the time, evicts over the watermark, and sweeps.
pub open spec fn gc_run(
    g: GcState,
    r: RegionState,
    now: u64,
    epoch: u64,
    min_ts: u32,
    min_active: u32,
    g2: GcState,
    r2: RegionState,
    count: nat,
) -> bool {
    if !sweep_due(g, now) {
        if over_watermark(g) {
            evicted_at(g, r, idle_batch(g.lru->0.key_count), epoch, min_ts, g2, r2, count)
        } else {
            g2 == g && r2 == r && count == 0
        }
    } else {
        exists|g1: GcState, r1: RegionState, n: nat| #[trigger]
            gc_evict_step(GcState { last_sweep: now, ..g }, r, epoch, min_ts, g1, r1, n) && g2 == (GcState {
                pending: Seq::empty(),
                ..g1
            }) && swept(r1, g1.pending, min_active as u64, r2, count)
    }
}

/// The eviction before a sweep: over the watermark, else nothing.
pub open spec fn gc_evict_step(
    g: GcState,
    r: RegionState,
    epoch: u64,
    min_ts: u32,
    g1: GcState,
    r1: RegionState,
    n: nat,
) -> bool {
    if over_watermark(g) {
        evicted_at(g, r, sweep_batch(g.lru->0.key_count), epoch, min_ts, g1, r1, n)
    } else {
        g1 == g && r1 == r
    }
}

// ---------------------------------------------------------------------------
// EpochGc
// ---------------------------------------------------------------------------
/// Epoch-based Garbage Collector for the Large Object Region.
///
/// Manages the lifecycle of deleted/tombstoned extents.
/// Runs sweep cycles that reclaim extents whose `epoch_mark`
/// has fallen below the minimum active timestamp across all clients.
pub struct EpochGc {
    /// Pending deletions: `(offset, epoch_mark)`
    pending: Vec<(u64, u64)>,
    /// Sweep interval in milliseconds (default: 1000ms = 1s)
    sweep_interval_ms: u64,
    /// Last sweep timestamp
    last_sweep: u64,
    /// Optional LRU tracker for cache eviction.
    lru: Option<LruTracker>,
}

impl View for EpochGc {
    type V = GcState;

    closed spec fn view(&self) -> GcState {
        GcState {
            pending: self.pending@,
            sweep_interval_ms: self.sweep_interval_ms,
            last_sweep: self.last_sweep,
            lru: match self.lru {
                Some(l) => Some(l@),
                None => None,
            },
        }
    }
}

impl EpochGc {
    /// Create a new epoch GC with the given sweep interval, at the current time.
    pub fn new(sweep_interval_ms: u64) -> (r: Self)
        ensures
            exists|now: u64|
                now <= u32::MAX && r@ == #[trigger] fresh(sweep_interval_ms, None, now),
    {
        let now: u64 = concurrency::now_ms() as u64;
        let r = Self::new_at(sweep_interval_ms, None, now);
        assert(r@ == fresh(sweep_interval_ms, None, now));
        r
    }

    /// Create an epoch GC with an LRU tracker for cache eviction, at the current time.
    pub fn with_lru(sweep_interval_ms: u64, lru_tracker: LruTracker) -> (r: Self)
        ensures
            exists|now: u64|
                now <= u32::MAX && r@ == #[trigger] fresh(
                    sweep_interval_ms,
                    Some(lru_tracker@),
                    now,
                ),
    {
        let now: u64 = concurrency::now_ms() as u64;
        let r = Self::new_at(sweep_interval_ms, Some(lru_tracker), now);
        assert(r@ == fresh(sweep_interval_ms, Some(lru_tracker@), now));
        r
    }

    /// Create an epoch GC at time `now`. The first sweep is due once the interval has
    /// passed from then on.
    pub fn new_at(sweep_interval_ms: u64, lru_tracker: Option<LruTracker>, now: u64) -> (r: Self)
        ensures
            r@ == fresh(
                sweep_interval_ms,
                match lru_tracker {
                    Some(l) => Some(l@),
                    None => None,
                },
                now,
            ),
    {
        EpochGc { pending: Vec::new(), sweep_interval_ms, last_sweep: now, lru: lru_tracker }
    }

    /// Schedule an extent for deletion, at the current time.
    ///
    /// Called when a client deletes a key (tombstone the bucket,
    /// but defer extent reclamation until GC sweep).
    pub fn schedule_deletion(&mut self, offset: u64)
        ensures
            exists|epoch: u64|
                epoch <= u32::MAX && final(self)@ == (GcState {
                    pending: #[trigger] old(self)@.pending.push((offset, epoch)),
                    ..old(self)@
                }),
    {
        let epoch: u64 = concurrency::now_ms() as u64;
        self.schedule_deletion_at(offset, epoch);
    }

    /// Schedule an extent for deletion with the given epoch.
    pub fn schedule_deletion_at(&mut self, offset: u64, epoch: u64)
        ensures
            final(self)@ == (GcState {
                pending: old(self)@.pending.push((offset, epoch)),
                ..old(self)@
            }),
    {
        self.pending.push((offset, epoch));
    }

    /// Number of pending deletions.
    pub fn pending_count(&self) -> (n: usize)
        ensures
            n == self@.pending.len(),
    {
        self.pending.len()
    }

    /// Get a reference to the LRU tracker, if configured.
    pub fn lru_tracker(&self) -> (r: Option<&LruTracker>)
        ensures
            match r {
                Some(l) => self@.lru == Some(l@),
                None => self@.lru is None,
            },
    {
        match &self.lru {
            Some(l) => Some(l),
            None => None,
        }
    }

    /// Check if a sweep is due.
    pub fn is_sweep_due(&self) -> (b: bool)
        ensures
            exists|now: u64| now <= u32::MAX && b == #[trigger] sweep_due(self@, now),
    {
        let now: u64 = concurrency::now_ms() as u64;
        self.is_sweep_due_at(now)
    }

    /// Check if a sweep is due at time `now`.
    pub fn is_sweep_due_at(&self, now: u64) -> (b: bool)
        ensures
            b == sweep_due(self@, now),
    {
        now.wrapping_sub(self.last_sweep) >= self.sweep_interval_ms
    }

    /// Force a sweep cycle now.
    pub fn sweep(&mut self, region: &mut LargeObjectRegion, min_active_ts: u32) -> (freed: usize)
        requires
            old(region).wf(),
        ensures
            final(region).wf(),
            final(region).size == old(region).size,
            final(self)@ == (GcState { pending: Seq::empty(), ..old(self)@ }),
            swept(
                old(region)@,
                old(self)@.pending,
                min_active_ts as u64,
                final(region)@,
                freed as nat,
            ),
    {
        // Mark all pending extents in the region with their epoch.
        let mut i: usize = 0;
        while i < self.pending.len()
            invariant
                i <= self.pending@.len(),
                self.pending@ == old(self).pending@,
                self.sweep_interval_ms == old(self).sweep_interval_ms,
                self.last_sweep == old(self).last_sweep,
                self.lru == old(self).lru,
                region.wf(),
                region.size == old(region).size,
                region@ == mark_all(old(region)@, self.pending@.take(i as int)),
            decreases self.pending@.len() - i,
        {
            let (offset, epoch): (u64, u64) = self.pending[i];
            proof {
                let longer = self.pending@.take(i as int + 1);
                assert(longer.drop_last() =~= self.pending@.take(i as int));
                assert(longer.last() == (offset, epoch));
            }
            let _ = region.mark_for_gc(offset, epoch);
            i = i + 1;
        }
        assert(self.pending@.take(i as int) =~= self.pending@);
        // Sweep: reclaim extents with epoch_mark < min_active_ts.
        let freed: usize = region.sweep(min_active_ts as u64);
        self.pending.clear();
        freed
    }

    /// Evict up to `n` least-recently-used entries from the extent region, at the
    /// current time.
    ///
    /// Returns the number of entries evicted.  Uses the LRU tracker
    /// (if configured) to select candidates, then marks them for GC sweep; the
    /// key hash of a candidate serves as its deletion marker.
    ///
    /// If no LRU tracker is configured, returns 0.
    pub fn evict_lru(&mut self, region: &mut LargeObjectRegion, n: usize) -> (count: usize)
        requires
            old(region).wf(),
        ensures
            final(region).wf(),
            final(region).size == old(region).size,
            exists|epoch: u64, min_ts: u32|
                epoch <= u32::MAX && #[trigger] evicted_at(
                    old(self)@,
                    old(region)@,
                    n as nat,
                    epoch,
                    min_ts,
                    final(self)@,
                    final(region)@,
                    count as nat,
                ),
    {
        let epoch: u64 = concurrency::now_ms() as u64;
        let min_ts: u32 = concurrency::now_ms();
        self.evict_lru_at(region, n, epoch, min_ts)
    }

    /// [`evict_lru`](Self::evict_lru) at a given time: candidates are scheduled for
    /// deletion with the epoch `epoch`, and the sweep that follows takes `min_ts` for
    /// the oldest activity.
    pub fn evict_lru_at(
        &mut self,
        region: &mut LargeObjectRegion,
        n: usize,
        epoch: u64,
        min_ts: u32,
    ) -> (count: usize)
        requires
            old(region).wf(),
        ensures
            final(region).wf(),
            final(region).size == old(region).size,
            evicted_at(
                old(self)@,
                old(region)@,
                n as nat,
                epoch,
                min_ts,
                final(self)@,
                final(region)@,
                count as nat,
            ),
    {
        let candidates: Vec<u64> = match &mut self.lru {
            Some(l) => l.select_eviction_candidates(n),
            None => return 0,
        };
        let ghost l2 = self@.lru->0;
        assert(lru::selected(old(self)@.lru->0, l2, n as nat, candidates@));
        if candidates.len() == 0 {
            return 0;
        }
        let mut i: usize = 0;
        assert(self.pending@ =~= old(self).pending@ + scheduled(candidates@.take(0), epoch));
        while i < candidates.len()
            invariant
                i <= candidates@.len(),
                self.pending@ == old(self).pending@ + scheduled(candidates@.take(i as int), epoch),
                self.sweep_interval_ms == old(self).sweep_interval_ms,
                self.last_sweep == old(self).last_sweep,
                self.lru is Some,
                self.lru->0@ == l2,
            decreases candidates@.len() - i,
        {
            self.schedule_deletion_at(candidates[i], epoch);
            i = i + 1;
            assert(self.pending@ =~= old(self).pending@ + scheduled(
                candidates@.take(i as int),
                epoch,
            ));
        }
        assert(candidates@.take(i as int) =~= candidates@);
        // Immediately sweep to reclaim space.
        let freed: usize = self.sweep(region, min_ts);
        assert(swept(
            old(region)@,
            old(self)@.pending + scheduled(candidates@, epoch),
            min_ts as u64,
            region@,
            freed as nat,
        ));
        if let Some(l) = &mut self.lru {
            l.increment_evicted(candidates.len() as u64);
        }
        candidates.len()
    }

    /// Check if it's time to run a sweep and execute if so.
    ///
    /// Returns the number of extents reclaimed.
    pub fn maybe_sweep(&mut self, region: &mut LargeObjectRegion, min_active_ts: u32) -> (count:
        usize)
        requires
            old(region).wf(),
        ensures
            final(region).wf(),
            final(region).size == old(region).size,
            exists|now: u64, epoch: u64, min_ts: u32|
                now <= u32::MAX && epoch <= u32::MAX && #[trigger] gc_run(
                    old(self)@,
                    old(region)@,
                    now,
                    epoch,
                    min_ts,
                    min_active_ts,
                    final(self)@,
                    final(region)@,
                    count as nat,
                ),
    {
        let now: u64 = concurrency::now_ms() as u64;
        let epoch: u64 = concurrency::now_ms() as u64;
        let min_ts: u32 = concurrency::now_ms();
        self.maybe_sweep_at(region, min_active_ts, now, epoch, min_ts)
    }

    /// [`maybe_sweep`](Self::maybe_sweep) at time `now`; an eviction goes by the times
    /// `epoch` and `min_ts`, as in [`evict_lru_at`](Self::evict_lru_at).
    pub fn maybe_sweep_at(
        &mut self,
        region: &mut LargeObjectRegion,
        min_active_ts: u32,
        now: u64,
        epoch: u64,
        min_ts: u32,
    ) -> (count: usize)
        requires
            old(region).wf(),
        ensures
            final(region).wf(),
            final(region).size == old(region).size,
            gc_run(
                old(self)@,
                old(region)@,
                now,
                epoch,
                min_ts,
                min_active_ts,
                final(self)@,
                final(region)@,
                count as nat,
            ),
    {
        let (over, key_count): (bool, u64) = match &self.lru {
            Some(l) => (l.needs_eviction(), l.key_count()),
            None => (false, 0),
        };
        assert(over == over_watermark(self@));
        if !self.is_sweep_due_at(now) {
            // Even if the sweep interval hasn't elapsed, check the LRU watermark
            // and evict if needed.
            if over {
                let below: u64 = if key_count == 0 {
                    0
                } else {
                    key_count - 1
                };
                let n: usize = batch_size(below / 10);
                return self.evict_lru_at(region, n, epoch, min_ts);
            }
            return 0;
        }
        self.last_sweep = now;
        let ghost g0 = self@;
        assert(g0 == (GcState { last_sweep: now, ..old(self)@ }));
        let ghost mut n0: nat = 0;
        // Also trigger LRU eviction during sweep if watermark exceeded.
        if over {
            let n: usize = batch_size(key_count / 10);
            let gone: usize = self.evict_lru_at(region, n, epoch, min_ts);
            proof {
                n0 = gone as nat;
            }
        }
        let ghost (g1, r1) = (self@, region@);
        assert(gc_evict_step(g0, old(region)@, epoch, min_ts, g1, r1, n0));
        self.sweep(region, min_active_ts)
    }
}

/// A number of entries to evict.
fn batch_size(n: u64) -> (r: usize)
    ensures
        r == batch(n as int),
{
    if n < 1 {
        1
    } else if n > usize::MAX as u64 {
        usize::MAX
    } else {
        n as usize
    }
}

impl Default for EpochGc {
    fn default() -> (r: Self)
        ensures
            exists|now: u64| now <= u32::MAX && r@ == #[trigger] fresh(1000, None, now),
    {
        Self::new(1000)
    }
}

/// The server GC thread's logic:
/// collect `active_ts` from all clients, compute min, and sweep. Without clients
/// nothing is swept.
pub fn run_gc_cycle(
    gc: &mut EpochGc,
    region: &mut LargeObjectRegion,
    client_active_timestamps: &[u32],
) -> (freed: usize)
    requires
        old(region).wf(),
    ensures
        final(region).wf(),
        final(region).size == old(region).size,
        client_active_timestamps@.len() == 0 ==> freed == 0 && final(gc)@ == old(gc)@
            && final(region)@ == old(region)@,
        client_active_timestamps@.len() > 0 ==> final(gc)@ == (GcState {
            pending: Seq::empty(),
            ..old(gc)@
        }) && swept(
            old(region)@,
            old(gc)@.pending,
            least(client_active_timestamps@) as u64,
            final(region)@,
            freed as nat,
        ),
{
    if client_active_timestamps.len() == 0 {
        return 0;
    }
    let min_ts: u32 = least_of(client_active_timestamps);
    gc.sweep(region, min_ts)
}

/// The smallest of some timestamps; zero when there are none.
pub fn least_of(ts: &[u32]) -> (m: u32)
    ensures
        m == least(ts@),
{
    if ts.len() == 0 {
        return 0;
    }
    let mut m: u32 = ts[0];
    let mut i: usize = 1;
    assert(ts@.take(1).last() == ts@[0]);
    while i < ts.len()
        invariant
            1 <= i <= ts@.len(),
            m == least(ts@.take(i as int)),
        decreases ts@.len() - i,
    {
        proof {
            let longer = ts@.take(i as int + 1);
            assert(longer.drop_last() =~= ts@.take(i as int));
        }
        if ts[i] <= m {
            m = ts[i];
        }
        i = i + 1;
    }
    assert(ts@.take(i as int) =~= ts@);
    m
}

// ---------------------------------------------------------------------------
// Laws
// ---------------------------------------------------------------------------
/// [`least`] is a lower bound of the timestamps, and one of them.
pub proof fn law_least(ts: Seq<u32>)
    requires
        ts.len() > 0,
    ensures
        ts.contains(least(ts)),
        forall|i: int| 0 <= i < ts.len() ==> least(ts) <= #[trigger] ts[i],
    decreases ts.len(),
{
    if ts.len() == 1 {
        assert(ts[0] == least(ts));
    } else {
        let front = ts.drop_last();
        law_least(front);
        let k = choose|k: int| 0 <= k < front.len() && front[k] == least(front);
        assert(ts[k] == front[k]);
        assert(ts[ts.len() - 1] == ts.last());
        assert forall|i: int| 0 <= i < ts.len() implies least(ts) <= #[trigger] ts[i] by {
            if i < front.len() {
                assert(front[i] == ts[i]);
            }
        }
    }
}

/// The epoch that the last pending deletion of `off` carries.
pub open spec fn last_mark(pending: Seq<(u64, u64)>, off: u64) -> Option<u64>
    decreases pending.len(),
{
    if pending.len() == 0 {
        None
    } else if pending.last().0 == off {
        Some(pending.last().1)
    } else {
        last_mark(pending.drop_last(), off)
    }
}

/// A pending deletion that is in order: its offset is allocated, and on a V2
/// extent the low 32 bits of the epoch are not the magic.
pub open spec fn in_order(s: RegionState, entry: (u64, u64)) -> bool {
    &&& s.allocated.contains(entry.0)
    &&& extent::decode_header(s.buffer, entry.0 as int)->0.is_v2 ==> entry.1 % 0x1_0000_0000
        != EXTENT_MAGIC
}

/// Marking keeps a region sound. Each extent carries the epoch of its last mark
/// and is otherwise as before.
pub proof fn law_mark_all(s: RegionState, pending: Seq<(u64, u64)>)
    requires
        extent::sound(s),
        forall|i: int| 0 <= i < pending.len() ==> in_order(s, #[trigger] pending[i]),
    ensures
        ({
            let t = mark_all(s, pending);
            &&& extent::sound(t)
            &&& t.allocated == s.allocated
            &&& t.buffer.len() == s.buffer.len()
            &&& forall|a: u64| #[trigger]
                s.allocated.contains(a) ==> {
                    let h = extent::decode_header(s.buffer, a as int)->0;
                    &&& extent::decode_header(t.buffer, a as int) == Some(
                        DecodedHeader {
                            epoch_mark: match last_mark(pending, a) {
                                Some(e) => e,
                                None => h.epoch_mark,
                            },
                            ..h
                        },
                    )
                    &&& extent::extent_payload(t.buffer, a as int) == extent::extent_payload(
                        s.buffer,
                        a as int,
                    )
                }
        }),
    decreases pending.len(),
{
    if pending.len() == 0 {
        assert forall|a: u64| #[trigger] s.allocated.contains(a) implies extent::decode_header(
            s.buffer,
            a as int,
        ) is Some by {
            assert(extent::extent_inside(s, a));
        }
    } else {
        let front = pending.drop_last();
        let (off, epoch) = pending.last();
        assert forall|i: int| 0 <= i < front.len() implies in_order(s, #[trigger] front[i]) by {
            assert(front[i] == pending[i]);
        }
        law_mark_all(s, front);
        let m = mark_all(s, front);
        assert(in_order(s, pending[pending.len() - 1]));
        extent_laws::law_mark(m, off, epoch);
        let t = mark_all(s, pending);
        assert forall|a: u64| #[trigger] s.allocated.contains(a) implies {
            let h = extent::decode_header(s.buffer, a as int)->0;
            &&& extent::decode_header(t.buffer, a as int) == Some(
                DecodedHeader {
                    epoch_mark: match last_mark(pending, a) {
                        Some(e) => e,
                        None => h.epoch_mark,
                    },
                    ..h
                },
            )
            &&& extent::extent_payload(t.buffer, a as int) == extent::extent_payload(
                s.buffer,
                a as int,
            )
        } by {
            assert(m.allocated.contains(a));
            if a != off {
                assert(m.allocated.remove(off).contains(a));
            }
        }
    }
}

/// What a garbage collection does to a sound region: an extent is reclaimed
/// exactly when its epoch, that of its last pending deletion or else the one it
/// carries, is non-zero and lies before the oldest activity of the clients. A
/// reclaimed extent can no longer be read, the others keep their payload, and the
/// number that comes back counts the reclaimed ones.
pub proof fn law_gc(s: RegionState, pending: Seq<(u64, u64)>, min_active: u64, t: RegionState, freed: nat)
    requires
        extent::sound(s),
        forall|i: int| 0 <= i < pending.len() ==> in_order(s, #[trigger] pending[i]),
        swept(s, pending, min_active, t, freed),
    ensures
        extent::sound(t),
        forall|a: u64| #[trigger]
            s.allocated.contains(a) ==> {
                let epoch = match last_mark(pending, a) {
                    Some(e) => e,
                    None => extent::decode_header(s.buffer, a as int)->0.epoch_mark,
                };
                if 0 < epoch < min_active {
                    &&& !t.allocated.contains(a)
                    &&& extent::extent_payload(t.buffer, a as int) is None
                } else {
                    &&& t.allocated.contains(a)
                    &&& extent::extent_payload(t.buffer, a as int) == extent::extent_payload(
                        s.buffer,
                        a as int,
                    )
                }
            },
        forall|a: u64| #[trigger] t.allocated.contains(a) ==> s.allocated.contains(a),
        t.allocated.len() + freed == s.allocated.len(),
{
    law_mark_all(s, pending);
    let m = mark_all(s, pending);
    let order = choose|order: Seq<u64>|
        #![trigger extent::sweep_in(m, order, min_active)]
        extent::enumerates(order, m.allocated) && (t, freed) == extent::sweep_in(
            m,
            order,
            min_active,
        );
    assert forall|i: int| 0 <= i < order.len() implies m.allocated.contains(
        #[trigger] order[i],
    ) by {
        assert(order.to_set().contains(order[i]));
    }
    extent_laws::law_sweep(m, order, min_active);
    assert forall|a: u64| #[trigger] s.allocated.contains(a) implies {
        let epoch = match last_mark(pending, a) {
            Some(e) => e,
            None => extent::decode_header(s.buffer, a as int)->0.epoch_mark,
        };
        if 0 < epoch < min_active {
            &&& !t.allocated.contains(a)
            &&& extent::extent_payload(t.buffer, a as int) is None
        } else {
            &&& t.allocated.contains(a)
            &&& extent::extent_payload(t.buffer, a as int) == extent::extent_payload(
                s.buffer,
                a as int,
            )
        }
    } by {
        assert(order.to_set().contains(a));
        assert(order.contains(a));
    }
}

/// A new collector waits: its first sweep is due once the interval has passed since
/// it was made, and not before.
pub proof fn law_new_collector_waits(
    sweep_interval_ms: u64,
    lru: Option<LruState>,
    now: u64,
    later: u64,
)
    requires
        now <= later,
    ensures
        sweep_due(fresh(sweep_interval_ms, lru, now), later) <==> later - now >= sweep_interval_ms,
{
}

/// An eviction reclaims what it picked: the extents of the entries, allocated when
/// they are scheduled with an epoch before the oldest activity, are freed by the sweep
/// that follows and can no longer be read.
pub proof fn law_eviction_reclaims(
    r: RegionState,
    pending: Seq<(u64, u64)>,
    picks: Seq<u64>,
    epoch: u64,
    min_ts: u32,
    r2: RegionState,
    freed: nat,
)
    requires
        extent::sound(r),
        forall|i: int| 0 <= i < pending.len() ==> in_order(r, #[trigger] pending[i]),
        forall|i: int| 0 <= i < picks.len() ==> in_order(r, (#[trigger] picks[i], epoch)),
        0 < epoch < min_ts,
        swept(r, pending + scheduled(picks, epoch), min_ts as u64, r2, freed),
    ensures
        extent::sound(r2),
        forall|i: int|
            0 <= i < picks.len() ==> !r2.allocated.contains(#[trigger] picks[i])
                && extent::extent_payload(r2.buffer, picks[i] as int) is None,
{
    let all = pending + scheduled(picks, epoch);
    assert forall|i: int| 0 <= i < all.len() implies in_order(r, #[trigger] all[i]) by {
        if i >= pending.len() {
            assert(all[i] == (picks[i - pending.len()], epoch));
        } else {
            assert(all[i] == pending[i]);
        }
    }
    law_gc(r, all, min_ts as u64, r2, freed);
    assert forall|i: int| 0 <= i < picks.len() implies !r2.allocated.contains(#[trigger] picks[i])
        && extent::extent_payload(r2.buffer, picks[i] as int) is None by {
        assert(in_order(r, (picks[i], epoch)));
        lemma_last_mark(pending, picks, epoch, i);
    }
}

/// An entry that was scheduled last carries that epoch.
proof fn lemma_last_mark(pending: Seq<(u64, u64)>, picks: Seq<u64>, epoch: u64, i: int)
    requires
        0 <= i < picks.len(),
    ensures
        last_mark(pending + scheduled(picks, epoch), picks[i]) == Some(epoch),
    decreases picks.len(),
{
    let all = pending + scheduled(picks, epoch);
    assert(all.last() == (picks.last(), epoch));
    if picks.last() != picks[i] {
        let front = picks.drop_last();
        assert(all.drop_last() =~= pending + scheduled(front, epoch));
        assert(front[i] == picks[i]);
        lemma_last_mark(pending, front, epoch, i);
    }
}

/// What an eviction takes: up to `n` of the oldest keys leave the tracker and are
/// counted as evicted. Unless there are none, they are scheduled with the epoch `epoch`
/// behind the pending deletions, and everything pending is swept with `min_ts` as the
/// oldest activity.
pub open spec fn took(
    g: GcState,
    r: RegionState,
    n: nat,
    epoch: u64,
    min_ts: u32,
    g1: GcState,
    r1: RegionState,
    picks: Seq<u64>,
) -> bool {
    &&& g.lru is Some
    &&& g1.lru is Some
    &&& lru::selected(
        g.lru->0,
        LruState { evicted: g.lru->0.evicted, ..g1.lru->0 },
        n,
        picks,
    )
    &&& g1.lru->0.evicted == (g.lru->0.evicted + picks.len()) % 0x1_0000_0000_0000_0000
    &&& g1.last_sweep == g.last_sweep
    &&& g1.sweep_interval_ms == g.sweep_interval_ms
    &&& if picks.len() == 0 {
        g1.pending == g.pending && r1 == r
    } else {
        g1.pending.len() == 0 && exists|due: Seq<(u64, u64)>, freed: nat|
            #[trigger] swept(r, due, min_ts as u64, r1, freed) && due == g.pending + Seq::new(
                picks.len(),
                |i: int| (picks[i], epoch),
            )
    }
}

/// An eviction without a tracker does nothing; with one it takes up to as many of the
/// oldest keys as it was asked for, and returns how many.
pub proof fn law_eviction_takes_the_oldest(
    g: GcState,
    r: RegionState,
    n: nat,
    epoch: u64,
    min_ts: u32,
    g2: GcState,
    r2: RegionState,
    count: nat,
)
    requires
        evicted_at(g, r, n, epoch, min_ts, g2, r2, count),
    ensures
        g.lru is None ==> g2 == g && r2 == r && count == 0,
        g.lru is Some ==> exists|picks: Seq<u64>| #[trigger]
            took(g, r, n, epoch, min_ts, g2, r2, picks) && count == picks.len(),
{
    if let Some(l) = g.lru {
        let (picks, l2) = choose|picks: Seq<u64>, l2: LruState| #[trigger]
            lru::selected(l, l2, n, picks) && count == picks.len() && if count == 0 {
                g2 == (GcState { lru: Some(l2), ..g }) && r2 == r
            } else {
                &&& g2 == (GcState {
                    lru: Some(
                        LruState {
                            evicted: ((l2.evicted + count) % 0x1_0000_0000_0000_0000) as u64,
                            ..l2
                        },
                    ),
                    pending: Seq::empty(),
                    ..g
                })
                &&& exists|freed: nat| #[trigger]
                    swept(r, g.pending + scheduled(picks, epoch), min_ts as u64, r2, freed)
            };
        assert(LruState { evicted: l.evicted, ..g2.lru->0 } == l2);
        assert(scheduled(picks, epoch) =~= Seq::new(picks.len(), |i: int| (picks[i], epoch)));
        if count > 0 {
            let freed = choose|freed: nat| #[trigger]
                swept(r, g.pending + scheduled(picks, epoch), min_ts as u64, r2, freed);
            assert(swept(r, g.pending + scheduled(picks, epoch), min_ts as u64, r2, freed));
        }
        assert(took(g, r, n, epoch, min_ts, g2, r2, picks));
    }
}

/// A run of the collector evicts exactly when the tracker counts more keys than its
/// watermark, and sweeps exactly when the interval has passed since the last sweep. At
/// or below the watermark and before the interval has passed it returns 0 and changes
/// neither collector nor region. Above the watermark it asks for a tenth of the keys,
/// and for at least one. A run that sweeps notes the time, leaves nothing pending and
/// returns how many extents the sweep reclaimed; one that only evicts returns how many
/// keys were evicted.
pub proof fn law_run_goes_by_watermark_and_interval(
    g: GcState,
    r: RegionState,
    now: u64,
    epoch: u64,
    min_ts: u32,
    min_active: u32,
    g2: GcState,
    r2: RegionState,
    count: nat,
)
    requires
        g.last_sweep <= now,
        gc_run(g, r, now, epoch, min_ts, min_active, g2, r2, count),
    ensures
        ({
            let due = now - g.last_sweep >= g.sweep_interval_ms;
            let over = g.lru is Some && g.lru->0.key_count > g.lru->0.watermark;
            let noted = GcState { last_sweep: now, ..g };
            let keys = g.lru->0.key_count;
            &&& !due && !over ==> g2 == g && r2 == r && count == 0
            &&& due && !over ==> g2 == (GcState { pending: Seq::empty(), ..noted }) && swept(
                r,
                g.pending,
                min_active as u64,
                r2,
                count,
            )
            &&& !due && over ==> exists|n: nat, picks: Seq<u64>| #[trigger]
                took(g, r, n, epoch, min_ts, g2, r2, picks) && count == picks.len() && tenth(
                    n,
                    keys - 1,
                )
            &&& due && over ==> exists|n: nat, picks: Seq<u64>, g1: GcState, r1: RegionState|
                #[trigger]
                took(noted, r, n, epoch, min_ts, g1, r1, picks) && tenth(n, keys as int) && g2 == (
                GcState { pending: Seq::empty(), ..g1 }) && swept(
                    r1,
                    g1.pending,
                    min_active as u64,
                    r2,
                    count,
                )
        }),
{
    let due = now - g.last_sweep >= g.sweep_interval_ms;
    let over = g.lru is Some && g.lru->0.key_count > g.lru->0.watermark;
    let noted = GcState { last_sweep: now, ..g };
    assert(due == sweep_due(g, now));
    if !due && over {
        let n = idle_batch(g.lru->0.key_count);
        law_eviction_takes_the_oldest(g, r, n, epoch, min_ts, g2, r2, count);
        let picks = choose|picks: Seq<u64>| #[trigger]
            took(g, r, n, epoch, min_ts, g2, r2, picks) && count == picks.len();
        assert(took(g, r, n, epoch, min_ts, g2, r2, picks) && tenth(n, g.lru->0.key_count - 1));
    }
    if due {
        let (g1, r1, m) = choose|g1: GcState, r1: RegionState, n: nat| #[trigger]
            gc_evict_step(noted, r, epoch, min_ts, g1, r1, n) && g2 == (GcState {
                pending: Seq::empty(),
                ..g1
            }) && swept(r1, g1.pending, min_active as u64, r2, count);
        if over {
            let n = sweep_batch(g.lru->0.key_count);
            law_eviction_takes_the_oldest(noted, r, n, epoch, min_ts, g1, r1, m);
            let picks = choose|picks: Seq<u64>| #[trigger]
                took(noted, r, n, epoch, min_ts, g1, r1, picks) && m == picks.len();
            assert(took(noted, r, n, epoch, min_ts, g1, r1, picks) && tenth(
                n,
                g.lru->0.key_count as int,
            ));
        }
    }
}

/// A tenth of some keys, rounded down, but at least one and no more than a `usize`
/// holds.
pub open spec fn tenth(n: nat, keys: int) -> bool {
    &&& 1 <= n <= usize::MAX
    &&& n == 1 || 10 * n <= keys
    &&& n == usize::MAX || 10 * n + 10 > keys
}

/// Deletions that are marked in two parts give what they give when they are marked at
/// once: one that finds no extent does not keep those behind it from being marked.
pub proof fn law_mark_in_parts(s: RegionState, first: Seq<(u64, u64)>, second: Seq<(u64, u64)>)
    ensures
        mark_all(s, first + second) == mark_all(mark_all(s, first), second),
        first.len() == 1 ==> mark_all(s, first) == extent::mark_in(s, first[0].0, first[0].1).0,
        mark_all(s, Seq::<(u64, u64)>::empty()) == s,
    decreases second.len(),
{
    if second.len() == 0 {
        assert(first + second =~= first);
    } else {
        law_mark_in_parts(s, first, second.drop_last());
        assert((first + second).drop_last() =~= first + second.drop_last());
        assert((first + second).last() == second.last());
    }
    if first.len() == 1 {
        assert(mark_all(s, first.drop_last()) == s);
    }
}

/// A clock that went back counts as one that went round once.
pub proof fn law_clock_that_went_back(g: GcState, now: u64)
    requires
        now < g.last_sweep,
    ensures
        sweep_due(g, now) <==> now + 0x1_0000_0000_0000_0000 - g.last_sweep >= g.sweep_interval_ms,
{
    let d = now - g.last_sweep;
    assert(d % 0x1_0000_0000_0000_0000 == d + 0x1_0000_0000_0000_0000);
}

/// A new collector has its interval and its tracker, and nothing to delete.
pub proof fn law_new_collector(sweep_interval_ms: u64, lru: Option<LruState>, now: u64)
    ensures
        fresh(sweep_interval_ms, lru, now).pending.len() == 0,
        fresh(sweep_interval_ms, lru, now).sweep_interval_ms == sweep_interval_ms,
        fresh(sweep_interval_ms, lru, now).lru == lru,
        least(Seq::<u32>::empty()) == 0,
{
}

} // verus!
