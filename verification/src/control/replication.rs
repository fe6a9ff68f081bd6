//! Asynchronous replication.
//!
//! The primary server forwards its updates to a backup node. Updates are queued
//! and applied in order when the queue is flushed.

use std::collections::VecDeque;

use vstd::prelude::*;

verus! {

// ---------------------------------------------------------------------------
// Model
// ---------------------------------------------------------------------------
/// A write that waits for replication: offset and data.
pub type Update = (u64, Seq<u8>);

/// `s` with `data` written at `at`, as far as it fits.
pub open spec fn overlaid(s: Seq<u8>, at: int, data: Seq<u8>) -> Seq<u8> {
    Seq::new(
        s.len(),
        |i: int|
            if at <= i < at + data.len() {
                data[i - at]
            } else {
                s[i]
            },
    )
}

/// `s` after the updates, the first one first.
pub open spec fn applied(s: Seq<u8>, updates: Seq<Update>) -> Seq<u8>
    decreases updates.len(),
{
    if updates.len() == 0 {
        s
    } else {
        overlaid(
            applied(s, updates.drop_last()),
            updates.last().0 as int,
            updates.last().1,
        )
    }
}

/// The write begins inside a store of `size` bytes, or at its end.
pub open spec fn begins_inside(update: Update, size: int) -> bool {
    update.0 <= size && update.0 + update.1.len() <= usize::MAX
}

/// A backup as a value: its bytes, and the updates that wait.
#[verifier::ext_equal]
pub struct BackupView {
    pub objects: Seq<u8>,
    pub pending: Seq<Update>,
}

/// What a read gives: the bytes from `offset` on, at most `length` of them, or
/// nothing when `offset` lies outside.
pub open spec fn read_of(objects: Seq<u8>, offset: int, length: int) -> Option<Seq<u8>> {
    if offset >= objects.len() {
        None
    } else if offset + length < objects.len() {
        Some(objects.subrange(offset, offset + length))
    } else {
        Some(objects.skip(offset))
    }
}

/// Writes `data` into `store` at `at`, as far as it fits.
fn overlay(store: &mut [u8], at: usize, data: &[u8])
    requires
        at <= old(store)@.len(),
        at + data@.len() <= usize::MAX,
    ensures
        final(store)@ == overlaid(old(store)@, at as int, data@),
{
    let end: usize = if at + data.len() < store.len() {
        at + data.len()
    } else {
        store.len()
    };
    let mut i: usize = at;
    while i < end
        invariant
            at <= i <= end,
            end <= at + data@.len(),
            end <= store@.len(),
            store@.len() == old(store)@.len(),
            forall|j: int| at <= j < i ==> store@[j] == data@[j - at],
            forall|j: int| 0 <= j < at ==> store@[j] == old(store)@[j],
            forall|j: int| i <= j < store@.len() ==> store@[j] == old(store)@[j],
        decreases end - i,
    {
        store[i] = data[i - at];
        i = i + 1;
    }
    assert(store@ =~= overlaid(old(store)@, at as int, data@));
}

// ---------------------------------------------------------------------------
// BackupStore
// ---------------------------------------------------------------------------
/// A replicated backup of the primary server's state.
#[derive(Debug)]
pub struct BackupStore {
    /// Copy of the large object region data.
    objects: Vec<u8>,
    /// Pending replication queue: (offset, data)
    pending: VecDeque<(u64, Vec<u8>)>,
}

/// The pending updates as values.
pub open spec fn updates(pending: Seq<(u64, Vec<u8>)>) -> Seq<Update> {
    Seq::new(pending.len(), |i: int| (pending[i].0, pending[i].1@))
}

impl View for BackupStore {
    type V = BackupView;

    closed spec fn view(&self) -> BackupView {
        BackupView { objects: self.objects@, pending: updates(self.pending@) }
    }
}

/// Every pending write begins inside the store.
pub open spec fn flushable(b: BackupView) -> bool {
    forall|i: int|
        0 <= i < b.pending.len() ==> begins_inside(#[trigger] b.pending[i], b.objects.len() as int)
}

impl BackupStore {
    /// Create a new backup store with the given capacity.
    pub fn new(capacity: usize) -> (r: Self)
        ensures
            r@ == (BackupView {
                objects: Seq::new(capacity as nat, |i: int| 0u8),
                pending: Seq::empty(),
            }),
    {
        let r = BackupStore { objects: vec![0u8; capacity], pending: VecDeque::new() };
        assert(r@ =~= (BackupView {
            objects: Seq::new(capacity as nat, |i: int| 0u8),
            pending: Seq::empty(),
        }));
        r
    }

    /// Enqueue a write for async replication.
    pub fn enqueue_write(&mut self, offset: u64, data: &[u8])
        ensures
            final(self)@ == (BackupView {
                pending: old(self)@.pending.push((offset, data@)),
                ..old(self)@
            }),
    {
        self.pending.push_back((offset, vstd::slice::slice_to_vec(data)));
        assert(self@ =~= (BackupView {
            pending: old(self)@.pending.push((offset, data@)),
            ..old(self)@
        }));
    }

    /// Replicate all pending writes to the backup.
    /// Returns the number of writes replicated.
    pub fn flush(&mut self) -> (count: usize)
        requires
            flushable(old(self)@),
        ensures
            count == old(self)@.pending.len(),
            final(self)@ == (BackupView {
                objects: applied(old(self)@.objects, old(self)@.pending),
                pending: Seq::empty(),
            }),
    {
        let count: usize = self.pending.len();
        let ghost all = self@.pending;
        let ghost objects = self@.objects;
        let mut i: usize = 0;
        assert(applied(objects, all.take(0)) =~= objects);
        while i < count
            invariant
                i <= count == self.pending@.len() == all.len(),
                updates(self.pending@) == all,
                self@.pending == all,
                self@.objects == applied(objects, all.take(i as int)),
                self@.objects.len() == objects.len(),
                forall|j: int|
                    0 <= j < all.len() ==> begins_inside(#[trigger] all[j], objects.len() as int),
            decreases count - i,
        {
            let start: u64 = self.pending[i].0;
            assert(begins_inside(all[i as int], objects.len() as int));
            overlay(&mut self.objects, start as usize, &self.pending[i].1);
            proof {
                assert(all.take(i + 1).drop_last() =~= all.take(i as int));
                assert(all.take(i + 1).last() == all[i as int]);
            }
            i = i + 1;
        }
        assert(all.take(i as int) =~= all);
        self.pending = VecDeque::new();
        assert(self@.pending =~= Seq::<Update>::empty());
        count
    }

    /// Read data from the backup at the given offset.
    pub fn read(&self, offset: u64, length: usize) -> (r: Option<Vec<u8>>)
        requires
            offset + length <= usize::MAX,
        ensures
            match r {
                Some(v) => read_of(self@.objects, offset as int, length as int) == Some(v@),
                None => read_of(self@.objects, offset as int, length as int) is None,
            },
    {
        let start: usize = offset as usize;
        if start >= self.objects.len() {
            return None;
        }
        let end: usize = if start + length < self.objects.len() {
            start + length
        } else {
            self.objects.len()
        };
        let v: Vec<u8> = vstd::slice::slice_to_vec(
            vstd::slice::slice_subrange(self.objects.as_slice(), start, end),
        );
        assert(self.objects@.skip(start as int) =~= self.objects@.subrange(
            start as int,
            self.objects@.len() as int,
        ));
        Some(v)
    }

    /// Number of pending replication entries.
    pub fn pending_count(&self) -> (n: usize)
        ensures
            n == self@.pending.len(),
    {
        self.pending.len()
    }
}

// ---------------------------------------------------------------------------
// ReplicationManager
// ---------------------------------------------------------------------------
/// Replication manager: coordinates async replication from primary to backup.
#[derive(Debug)]
pub struct ReplicationManager {
    backup: BackupStore,
    /// Maximum replication lag (in number of pending entries) before blocking
    max_lag: usize,
}

impl View for ReplicationManager {
    type V = BackupView;

    closed spec fn view(&self) -> BackupView {
        self.backup@
    }
}

impl ReplicationManager {
    /// The number of pending entries from which on replication lags.
    pub closed spec fn lag_limit(&self) -> usize {
        self.max_lag
    }

    /// Create a new replication manager.
    pub fn new(backup_capacity: usize, max_lag: usize) -> (r: Self)
        ensures
            r@ == (BackupView {
                objects: Seq::new(backup_capacity as nat, |i: int| 0u8),
                pending: Seq::empty(),
            }),
            r.lag_limit() == max_lag,
    {
        ReplicationManager { backup: BackupStore::new(backup_capacity), max_lag }
    }

    /// Write data and schedule async replication.
    pub fn write_with_replication(&mut self, offset: u64, data: &[u8], local_store: &mut [u8])
        requires
            begins_inside((offset, data@), old(local_store)@.len() as int),
        ensures
            final(local_store)@ == overlaid(old(local_store)@, offset as int, data@),
            final(self)@ == (BackupView {
                pending: old(self)@.pending.push((offset, data@)),
                ..old(self)@
            }),
            final(self).lag_limit() == old(self).lag_limit(),
    {
        // Write locally first
        overlay(local_store, offset as usize, data);
        // Enqueue for async replication
        self.backup.enqueue_write(offset, data);
    }

    /// Flush replication queue. Called periodically or on demand.
    pub fn flush_replication(&mut self) -> (count: usize)
        requires
            flushable(old(self)@),
        ensures
            count == old(self)@.pending.len(),
            final(self)@ == (BackupView {
                objects: applied(old(self)@.objects, old(self)@.pending),
                pending: Seq::empty(),
            }),
            final(self).lag_limit() == old(self).lag_limit(),
    {
        self.backup.flush()
    }

    /// Check if replication lag exceeds threshold.
    pub fn is_lagging(&self) -> (b: bool)
        ensures
            b == (self@.pending.len() > self.lag_limit()),
    {
        self.backup.pending_count() > self.max_lag
    }

    /// Get the backup store.
    pub fn backup(&self) -> (r: &BackupStore)
        ensures
            r@ == self@,
    {
        &self.backup
    }

    /// Read from the backup (for verification).
    pub fn read_from_backup(&self, offset: u64, length: usize) -> (r: Option<Vec<u8>>)
        requires
            offset + length <= usize::MAX,
        ensures
            match r {
                Some(v) => read_of(self@.objects, offset as int, length as int) == Some(v@),
                None => read_of(self@.objects, offset as int, length as int) is None,
            },
    {
        self.backup.read(offset, length)
    }
}

/// Replication status for monitoring.
#[derive(Debug, Clone, Copy, PartialEq, Eq, Structural)]
pub struct ReplicationStatus {
    /// Number of pending replication entries
    pub pending_count: usize,
    /// Whether replication is lagging
    pub lagging: bool,
    /// Total writes replicated
    pub total_replicated: u64,
}

// ---------------------------------------------------------------------------
// Laws
// ---------------------------------------------------------------------------
/// A write that is replicated and flushed can be read from the backup, as far as
/// it fits there.
pub proof fn law_replicated_write_reads_back(b: BackupView, offset: u64, data: Seq<u8>)
    requires
        offset + data.len() <= b.objects.len(),
        data.len() > 0,
    ensures
        read_of(
            applied(b.objects, b.pending.push((offset, data))),
            offset as int,
            data.len() as int,
        ) == Some(data),
{
    let all = b.pending.push((offset, data));
    assert(all.drop_last() =~= b.pending);
    lemma_applied_len(b.objects, b.pending);
    let after = applied(b.objects, all);
    assert(after.subrange(offset as int, offset + data.len()) =~= data);
    assert(after.skip(offset as int) =~= after.subrange(offset as int, after.len() as int));
}

/// Updates do not change the size of a store.
proof fn lemma_applied_len(s: Seq<u8>, updates: Seq<Update>)
    ensures
        applied(s, updates).len() == s.len(),
    decreases updates.len(),
{
    if updates.len() > 0 {
        lemma_applied_len(s, updates.drop_last());
    }
}

/// The backup will be a copy of the local store once it is flushed.
pub open spec fn mirrors(b: BackupView, local: Seq<u8>) -> bool {
    applied(b.objects, b.pending) == local
}

/// A backup that mirrors the local store still does after a replicated write, and
/// is equal to the local store after a flush.
pub proof fn law_backup_mirrors_primary(b: BackupView, local: Seq<u8>, offset: u64, data: Seq<u8>)
    requires
        mirrors(b, local),
    ensures
        mirrors(
            BackupView { pending: b.pending.push((offset, data)), ..b },
            overlaid(local, offset as int, data),
        ),
        ({
            let flushed = BackupView {
                objects: applied(b.objects, b.pending),
                pending: Seq::<Update>::empty(),
            };
            mirrors(flushed, local) && flushed.objects == local
        }),
{
    assert(b.pending.push((offset, data)).drop_last() =~= b.pending);
}

/// A write changes the bytes that it covers, as far as they lie in the store, and
/// no others; the size of the store stays.
pub proof fn law_write_covers_its_bytes(s: Seq<u8>, at: int, data: Seq<u8>)
    requires
        0 <= at,
    ensures
        overlaid(s, at, data).len() == s.len(),
        forall|k: int|
            0 <= k < data.len() && at + k < s.len() ==> #[trigger] data[k] == overlaid(s, at, data)[at
                + k],
        forall|i: int|
            0 <= i < s.len() && (i < at || at + data.len() <= i) ==> #[trigger] overlaid(
                s,
                at,
                data,
            )[i] == s[i],
{
}

/// Updates that are flushed in two parts give what they give when they are flushed
/// at once, and a single update is a write.
pub proof fn law_flush_in_parts(s: Seq<u8>, first: Seq<Update>, second: Seq<Update>)
    ensures
        applied(s, first + second) == applied(applied(s, first), second),
        first.len() == 1 ==> applied(s, first) == overlaid(s, first[0].0 as int, first[0].1),
        applied(s, Seq::<Update>::empty()) == s,
    decreases second.len(),
{
    if second.len() == 0 {
        assert(first + second =~= first);
    } else {
        law_flush_in_parts(s, first, second.drop_last());
        assert((first + second).drop_last() =~= first + second.drop_last());
        assert((first + second).last() == second.last());
    }
    if first.len() == 1 {
        assert(applied(s, first.drop_last()) == s);
    }
}

/// A read inside the store succeeds and gives the bytes that stand there, as many as
/// were asked for or as the store has; a read outside gives nothing.
pub proof fn law_backup_read(objects: Seq<u8>, offset: int, length: int)
    requires
        0 <= offset,
        0 <= length,
    ensures
        read_of(objects, offset, length) is Some <==> offset < objects.len(),
        read_of(objects, offset, length) matches Some(v) ==> {
            &&& v.len() == (if offset + length <= objects.len() {
                length
            } else {
                objects.len() - offset
            })
            &&& forall|k: int| 0 <= k < v.len() ==> #[trigger] v[k] == objects[offset + k]
        },
{
}

/// A queue can be flushed when each of its writes begins inside the store or at its
/// end.
pub proof fn law_flushable(b: BackupView)
    requires
        b.objects.len() <= usize::MAX,
        forall|i: int|
            0 <= i < b.pending.len() ==> (#[trigger] b.pending[i]).0 <= b.objects.len()
                && b.pending[i].0 + b.pending[i].1.len() <= usize::MAX,
    ensures
        flushable(b),
{
}

} // verus!
