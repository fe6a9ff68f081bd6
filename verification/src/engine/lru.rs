//! LRU eviction tracker for cache management.
//!
//! Tracks key access timestamps and supports eviction of least-recently-used
//! entries. Works alongside [`EpochGc`](crate::engine::gc::EpochGc) for
//! tombstone-based GC.

use std::collections::HashMap;

use crossbeam::queue::SegQueue;
use vstd::prelude::*;

verus! {

// ---------------------------------------------------------------------------
// The access queue
// ---------------------------------------------------------------------------
/// `crossbeam::queue::SegQueue`: an unbounded first-in, first-out queue.
#[verifier::external_type_specification]
#[verifier::external_body]
#[verifier::reject_recursive_types(T)]
pub struct ExSegQueue<T>(SegQueue<T>);

/// The records in a queue, oldest first.
pub uninterp spec fn queued(q: SegQueue<(u64, u64)>) -> Seq<(u64, u64)>;

/// Calls `SegQueue::new`, which makes an empty queue.
#[verifier::external_body]
fn queue_new() -> (q: SegQueue<(u64, u64)>)
    ensures
        queued(q) == Seq::<(u64, u64)>::empty(),
{
    SegQueue::new()
}

/// Calls `SegQueue::push`, which puts the record behind all others. The
/// exclusive reference leaves no other thread to push or pop meanwhile.
#[verifier::external_body]
fn queue_push(q: &mut SegQueue<(u64, u64)>, record: (u64, u64))
    ensures
        queued(*final(q)) == queued(*old(q)).push(record),
{
    q.push(record)
}

/// Calls `SegQueue::pop`, which takes the oldest record, or nothing from an empty
/// queue. The exclusive reference leaves no other thread to push or pop
/// meanwhile.
#[verifier::external_body]
fn queue_pop(q: &mut SegQueue<(u64, u64)>) -> (r: Option<(u64, u64)>)
    ensures
        match r {
            Some(record) => queued(*old(q)).len() > 0 && record == queued(*old(q))[0] && queued(
                *final(q),
            ) == queued(*old(q)).subrange(1, queued(*old(q)).len() as int),
            None => queued(*old(q)).len() == 0 && queued(*final(q)) == queued(*old(q)),
        },
{
    q.pop()
}

/// Calls `slice::sort_by_key` with the second component as key. The result holds
/// the same pairs, in ascending order of that component.
#[verifier::external_body]
fn sort_by_time(entries: &mut Vec<(u64, u64)>)
    ensures
        final(entries)@.to_multiset() == old(entries)@.to_multiset(),
        forall|i: int, j: int|
            0 <= i <= j < final(entries)@.len() ==> (#[trigger] final(entries)@[i]).1 <= (
            #[trigger] final(entries)@[j]).1,
{
    entries.sort_by_key(|entry| entry.1)
}

// ---------------------------------------------------------------------------
// Model
// ---------------------------------------------------------------------------
/// The state of an LRU tracker.
#[verifier::ext_equal]
pub struct LruState {
    /// Access records `(key_hash, timestamp_ms)` that were not merged yet.
    pub accesses: Seq<(u64, u64)>,
    /// Last access time per key.
    pub last_access: Map<u64, u64>,
    /// Number of tracked keys (approximate).
    pub key_count: u64,
    /// Eviction starts when `key_count` exceeds this.
    pub watermark: u64,
    /// Monotonic eviction counter.
    pub evicted: u64,
}

/// Access times after the records are merged in order: a later record of a key
/// replaces an earlier one.
pub open spec fn merged(m: Map<u64, u64>, records: Seq<(u64, u64)>) -> Map<u64, u64>
    decreases records.len(),
{
    if records.len() == 0 {
        m
    } else {
        let last = records.last();
        merged(m, records.drop_last()).insert(last.0, last.1)
    }
}

/// `picks` are the `n` least recently used keys of `m`, or all keys when there
/// are no more than `n`, oldest first. Among keys with equal times any may come
/// first.
pub open spec fn oldest(m: Map<u64, u64>, picks: Seq<u64>, n: nat) -> bool {
    &&& picks.no_duplicates()
    &&& picks.len() == if n <= m.len() {
        n
    } else {
        m.len()
    }
    &&& forall|i: int| 0 <= i < picks.len() ==> m.contains_key(#[trigger] picks[i])
    &&& forall|i: int, j: int|
        0 <= i <= j < picks.len() ==> m[#[trigger] picks[i]] <= m[#[trigger] picks[j]]
    &&& forall|k: u64, i: int|
        m.contains_key(k) && !picks.contains(k) && 0 <= i < picks.len() ==> m[#[trigger] picks[i]]
            <= #[trigger] m[k]
}

/// A selection of `n` eviction candidates: all records are merged, and the
/// candidates leave the tracker.
pub open spec fn selected(s: LruState, t: LruState, n: nat, picks: Seq<u64>) -> bool {
    let all = merged(s.last_access, s.accesses);
    &&& t.accesses == Seq::<(u64, u64)>::empty()
    &&& oldest(all, picks, n)
    &&& t.last_access == all.remove_keys(picks.to_set())
    &&& t.key_count == t.last_access.len()
    &&& t.watermark == s.watermark
    &&& t.evicted == s.evicted
}

// ---------------------------------------------------------------------------
// LruTracker
// ---------------------------------------------------------------------------
/// Tracks LRU access order for cache eviction.
///
/// Uses `SegQueue` for access-time recording, falling back to a periodic sort
/// for eviction candidate selection. Eviction candidates are selected by
/// collecting recent access records, sorting by timestamp, and returning the
/// oldest key hashes.
pub struct LruTracker {
    /// Access records: `(key_hash, timestamp_ms)`.
    accesses: SegQueue<(u64, u64)>,
    /// Last access time per key for dedup during eviction selection.
    last_access: HashMap<u64, u64>,
    /// Total number of tracked keys (approximate).
    key_count: u64,
    /// Eviction watermark: start evicting when `key_count` exceeds this.
    watermark: u64,
    /// Monotonic eviction counter.
    evicted: u64,
}

impl View for LruTracker {
    type V = LruState;

    closed spec fn view(&self) -> LruState {
        LruState {
            accesses: queued(self.accesses),
            last_access: self.last_access@,
            key_count: self.key_count,
            watermark: self.watermark,
            evicted: self.evicted,
        }
    }
}

/// Lists the entries of a map, in no particular order.
fn list_entries(m: &HashMap<u64, u64>) -> (v: Vec<(u64, u64)>)
    ensures
        v@.no_duplicates(),
        v@.len() == m@.len(),
        forall|i: int|
            0 <= i < v@.len() ==> m@.contains_key((#[trigger] v@[i]).0) && m@[v@[i].0] == v@[i].1,
        forall|k: u64| #[trigger] m@.contains_key(k) ==> v@.contains((k, m@[k])),
{
    broadcast use vstd::std_specs::hash::group_hash_axioms;

    let ghost members = vstd::std_specs::iter::IteratorSpec::remaining(
        &vstd::std_specs::hash::spec_hash_map_iter(m),
    );
    let mut v: Vec<(u64, u64)> = Vec::new();
    for entry in it: m.iter()
        invariant
            it.seq() == members,
            members.no_duplicates(),
            v@.len() == it.index(),
            forall|i: int| 0 <= i < v@.len() ==> #[trigger] v@[i] == (*members[i].0, *members[i].1),
    {
        v.push((*entry.0, *entry.1));
    }
    proof {
        assert(v@.len() == members.len());
        assert forall|i: int, j: int| 0 <= i < v@.len() && 0 <= j < v@.len() && i != j implies v@[i]
            != v@[j] by {
            assert(members[i] != members[j]);
        }
        assert forall|k: u64| #[trigger] m@.contains_key(k) implies v@.contains((k, m@[k])) by {
            assert(members.contains((&k, &m@[k])));
            let i = choose|i: int| 0 <= i < members.len() && members[i] == (&k, &m@[k]);
            assert(v@[i] == (k, m@[k]));
        }
    }
    v
}

impl LruTracker {
    /// Create a new LRU tracker.
    ///
    /// `watermark`: start eviction when the number of tracked keys
    /// exceeds this threshold.
    pub fn new(watermark: u64) -> (r: Self)
        ensures
            r@ == (LruState {
                accesses: Seq::empty(),
                last_access: Map::empty(),
                key_count: 0,
                watermark,
                evicted: 0,
            }),
    {
        LruTracker {
            accesses: queue_new(),
            last_access: HashMap::new(),
            key_count: 0,
            watermark,
            evicted: 0,
        }
    }

    /// Record an access to the given key hash, at the current time.
    pub fn record_access(&mut self, key_hash: u64)
        ensures
            exists|now: u64|
                final(self)@ == #[trigger] accessed(old(self)@, key_hash, now) && now <= u32::MAX,
    {
        let now: u64 = crate::engine::concurrency::now_ms() as u64;
        self.record_access_at(key_hash, now);
    }

    /// Record an access to the given key hash at time `now`: pushes
    /// `(key_hash, now)` and increments the approximate key count.
    pub fn record_access_at(&mut self, key_hash: u64, now: u64)
        ensures
            final(self)@ == accessed(old(self)@, key_hash, now),
    {
        queue_push(&mut self.accesses, (key_hash, now));
        // Approximate: deduplication happens during eviction candidate selection.
        self.key_count = self.key_count.wrapping_add(1);
    }

    /// Get the current tracked key count (approximate: includes
    /// duplicate accesses for the same key).
    pub fn key_count(&self) -> (n: u64)
        ensures
            n == self@.key_count,
    {
        self.key_count
    }

    /// Check if eviction is needed (`key_count > watermark`).
    pub fn needs_eviction(&self) -> (b: bool)
        ensures
            b == (self@.key_count > self@.watermark),
    {
        self.key_count > self.watermark
    }

    /// Moves every queued record into the access times.
    fn merge_records(&mut self)
        ensures
            final(self)@ == (LruState {
                accesses: Seq::empty(),
                last_access: merged(old(self)@.last_access, old(self)@.accesses),
                ..old(self)@
            }),
    {
        broadcast use vstd::std_specs::hash::group_hash_axioms;

        let ghost records = queued(self.accesses);
        let ghost mut done: int = 0;
        assert(records.subrange(0, records.len() as int) =~= records);
        assert(records.take(0) =~= Seq::empty());
        let mut next: Option<(u64, u64)> = queue_pop(&mut self.accesses);
        while next.is_some()
            invariant
                0 <= done <= records.len(),
                self.key_count == old(self).key_count,
                self.watermark == old(self).watermark,
                self.evicted == old(self).evicted,
                records == queued(old(self).accesses),
                self.last_access@ == merged(old(self).last_access@, records.take(done)),
                match next {
                    Some(record) => done < records.len() && record == records[done] && queued(
                        self.accesses,
                    ) == records.subrange(done + 1, records.len() as int),
                    None => done == records.len() && queued(self.accesses).len() == 0,
                },
            decreases records.len() - done,
        {
            if let Some(record) = next {
                self.last_access.insert(record.0, record.1);
                proof {
                    let longer = records.take(done + 1);
                    assert(longer.drop_last() =~= records.take(done));
                    assert(longer.last() == record);
                    done = done + 1;
                    let rest = records.subrange(done, records.len() as int);
                    if rest.len() > 0 {
                        assert(rest.subrange(1, rest.len() as int) =~= records.subrange(
                            done + 1,
                            records.len() as int,
                        ));
                    }
                }
                next = queue_pop(&mut self.accesses);
            }
        }
        proof {
            assert(records.take(done) =~= records);
            assert(queued(self.accesses) =~= Seq::empty());
        }
    }

    /// Select up to `n` LRU candidates for eviction.
    ///
    /// Drains the `SegQueue`, deduplicates into `last_access`, sorts by
    /// timestamp, and returns the oldest `n` key hashes, which leave
    /// `last_access`.  Keys that appear in `last_access` but not in the current
    /// drain are preserved.
    pub fn select_eviction_candidates(&mut self, n: usize) -> (picks: Vec<u64>)
        ensures
            selected(old(self)@, final(self)@, n as nat, picks@),
    {
        broadcast use vstd::std_specs::hash::group_hash_axioms;
        broadcast use vstd::seq_lib::group_to_multiset_ensures;

        self.merge_records();
        let ghost all = self.last_access@;
        let mut sorted: Vec<(u64, u64)> = list_entries(&self.last_access);
        let ghost listed = sorted@;
        sort_by_time(&mut sorted);
        proof {
            lemma_same_entries(listed, sorted@);
            assert forall|j: int| 0 <= j < sorted@.len() implies all.contains_key(
                (#[trigger] sorted@[j]).0,
            ) && all[sorted@[j].0] == sorted@[j].1 by {
                assert(sorted@.contains(sorted@[j]));
                assert(listed.contains(sorted@[j]));
            }
        }
        let take: usize = if n < sorted.len() {
            n
        } else {
            sorted.len()
        };
        let mut picks: Vec<u64> = Vec::new();
        let mut i: usize = 0;
        while i < take
            invariant
                i <= take <= sorted@.len(),
                picks@.len() == i,
                forall|j: int| 0 <= j < i ==> #[trigger] picks@[j] == sorted@[j].0,
                sorted@.no_duplicates(),
                forall|j: int|
                    0 <= j < sorted@.len() ==> all.contains_key((#[trigger] sorted@[j]).0)
                        && all[sorted@[j].0] == sorted@[j].1,
                self.last_access@ == all.remove_keys(picks@.to_set()),
                queued(self.accesses) == Seq::<(u64, u64)>::empty(),
                self.watermark == old(self).watermark,
                self.evicted == old(self).evicted,
            decreases take - i,
        {
            let key: u64 = sorted[i].0;
            let ghost before = picks@;
            self.last_access.remove(&key);
            picks.push(key);
            i = i + 1;
            proof {
                assert(picks@.to_set() =~= before.to_set().insert(key)) by {
                    assert forall|k: u64| picks@.to_set().contains(k) == before.to_set().insert(
                        key,
                    ).contains(k) by {
                        if before.contains(k) {
                            let j = choose|j: int| 0 <= j < before.len() && before[j] == k;
                            assert(picks@[j] == k);
                        }
                        assert(picks@[before.len() as int] == key);
                    }
                }
            }
            assert(self.last_access@ =~= all.remove_keys(picks@.to_set()));
        }
        self.key_count = self.last_access.len() as u64;
        proof {
            assert(picks@.no_duplicates()) by {
                assert forall|a: int, b: int|
                    0 <= a < picks@.len() && 0 <= b < picks@.len() && a != b implies picks@[a]
                    != picks@[b] by {
                    assert(sorted@[a] != sorted@[b]);
                }
            }
            assert forall|k: u64, a: int|
                all.contains_key(k) && !picks@.contains(k) && 0 <= a
                    < picks@.len() implies all[#[trigger] picks@[a]] <= #[trigger] all[k] by {
                assert(listed.contains((k, all[k])));
                assert(sorted@.contains((k, all[k])));
                let b = choose|b: int| 0 <= b < sorted@.len() && sorted@[b] == (k, all[k]);
                if b < take {
                    assert(picks@[b] == k);
                }
            }
        }
        picks
    }

    /// Increment the evicted counter by `delta` (typically called after
    /// actual eviction succeeds on the engine side).
    pub fn increment_evicted(&mut self, delta: u64)
        ensures
            final(self)@ == (LruState {
                evicted: ((old(self)@.evicted + delta) % 0x1_0000_0000_0000_0000) as u64,
                ..old(self)@
            }),
    {
        self.evicted = self.evicted.wrapping_add(delta);
    }

    /// Number of evicted entries (monotonic counter).
    pub fn evicted_count(&self) -> (n: u64)
        ensures
            n == self@.evicted,
    {
        self.evicted
    }
}

/// The tracker after an access to a key at time `now`.
pub open spec fn accessed(s: LruState, key_hash: u64, now: u64) -> LruState {
    LruState {
        accesses: s.accesses.push((key_hash, now)),
        key_count: ((s.key_count + 1) % 0x1_0000_0000_0000_0000) as u64,
        ..s
    }
}

impl Default for LruTracker {
    fn default() -> (r: Self)
        ensures
            r@ == (LruState {
                accesses: Seq::empty(),
                last_access: Map::empty(),
                key_count: 0,
                watermark: 100_000,
                evicted: 0,
            }),
    {
        Self::new(100_000)
    }
}

/// Two lists with the same multiset of entries hold the same entries, as often.
proof fn lemma_same_entries(a: Seq<(u64, u64)>, b: Seq<(u64, u64)>)
    requires
        a.no_duplicates(),
        a.to_multiset() == b.to_multiset(),
    ensures
        b.no_duplicates(),
        a.len() == b.len(),
        forall|x: (u64, u64)| a.contains(x) <==> b.contains(x),
{
    a.to_multiset_ensures();
    b.to_multiset_ensures();
    a.lemma_multiset_has_no_duplicates();
    b.lemma_multiset_has_no_duplicates_conv();
    assert forall|x: (u64, u64)| a.contains(x) <==> b.contains(x) by {
        assert(a.contains(x) <==> a.to_multiset().count(x) > 0);
        assert(b.contains(x) <==> b.to_multiset().count(x) > 0);
    }
}

// ---------------------------------------------------------------------------
// Laws
// ---------------------------------------------------------------------------
/// The time of a key is that of its last record.
pub proof fn law_last_record_counts(m: Map<u64, u64>, records: Seq<(u64, u64)>, i: int)
    requires
        0 <= i < records.len(),
        forall|j: int| i < j < records.len() ==> (#[trigger] records[j]).0 != records[i].0,
    ensures
        merged(m, records).contains_key(records[i].0),
        merged(m, records)[records[i].0] == records[i].1,
    decreases records.len(),
{
    if i < records.len() - 1 {
        let front = records.drop_last();
        assert(front[i] == records[i]);
        assert forall|j: int| i < j < front.len() implies (#[trigger] front[j]).0 != front[i].0 by {
            assert(front[j] == records[j]);
        }
        law_last_record_counts(m, front, i);
        assert(records[records.len() - 1].0 != records[i].0);
    }
}

/// A candidate is gone after the selection, and a key that stays was used no
/// earlier than any candidate.
pub proof fn law_candidates_are_oldest(s: LruState, t: LruState, n: nat, picks: Seq<u64>)
    requires
        selected(s, t, n, picks),
    ensures
        forall|i: int| 0 <= i < picks.len() ==> !t.last_access.contains_key(#[trigger] picks[i]),
        forall|k: u64, i: int|
            t.last_access.contains_key(k) && 0 <= i < picks.len() ==> merged(
                s.last_access,
                s.accesses,
            )[#[trigger] picks[i]] <= #[trigger] t.last_access[k],
{
    let all = merged(s.last_access, s.accesses);
    assert forall|i: int| 0 <= i < picks.len() implies !t.last_access.contains_key(
        #[trigger] picks[i],
    ) by {
        assert(picks.to_set().contains(picks[i]));
    }
    assert forall|k: u64, i: int|
        t.last_access.contains_key(k) && 0 <= i < picks.len() implies all[#[trigger] picks[i]]
        <= #[trigger] t.last_access[k] by {
        assert(!picks.to_set().contains(k));
        assert(all.contains_key(k));
        assert(all[picks[i]] <= all[k]);
    }
}

/// The key is tracked: it has an access time or a record that was not merged yet.
pub open spec fn tracked_key(s: LruState, k: u64) -> bool {
    s.last_access.contains_key(k) || exists|i: int|
        0 <= i < s.accesses.len() && (#[trigger] s.accesses[i]).0 == k
}

/// Merging keeps the keys that had a time, adds those with a record and no others, and
/// leaves the time of a key without a record alone.
pub proof fn law_merging_keeps_keys(m: Map<u64, u64>, records: Seq<(u64, u64)>)
    ensures
        forall|k: u64| #[trigger]
            merged(m, records).contains_key(k) <==> m.contains_key(k) || exists|i: int|
                0 <= i < records.len() && (#[trigger] records[i]).0 == k,
        forall|k: u64|
            m.contains_key(k) && (forall|i: int|
                0 <= i < records.len() ==> (#[trigger] records[i]).0 != k) ==> #[trigger] merged(
                m,
                records,
            )[k] == m[k],
        m.dom().finite() ==> merged(m, records).dom().finite(),
    decreases records.len(),
{
    if records.len() > 0 {
        let front = records.drop_last();
        law_merging_keeps_keys(m, front);
        let all = merged(m, records);
        assert forall|k: u64| #[trigger]
            all.contains_key(k) <==> m.contains_key(k) || exists|i: int|
                0 <= i < records.len() && (#[trigger] records[i]).0 == k by {
            assert(records[records.len() - 1] == records.last());
            if merged(m, front).contains_key(k) && !m.contains_key(k) {
                let i = choose|i: int| 0 <= i < front.len() && (#[trigger] front[i]).0 == k;
                assert(records[i].0 == k);
            }
            if exists|i: int| 0 <= i < records.len() && (#[trigger] records[i]).0 == k {
                let i = choose|i: int| 0 <= i < records.len() && (#[trigger] records[i]).0 == k;
                if i < front.len() {
                    assert(front[i].0 == k);
                    assert(merged(m, front).contains_key(k));
                }
            }
            if m.contains_key(k) {
                assert(merged(m, front).contains_key(k));
            }
        }
        assert forall|k: u64|
            m.contains_key(k) && (forall|i: int|
                0 <= i < records.len() ==> (#[trigger] records[i]).0 != k) implies #[trigger] all[k]
            == m[k] by {
            assert(records[records.len() - 1].0 != k);
            assert forall|i: int| 0 <= i < front.len() implies (#[trigger] front[i]).0 != k by {
                assert(records[i].0 != k);
            }
            assert(merged(m, front)[k] == m[k]);
        }
    }
}

/// A selection parts the tracked keys: each of them either is a candidate or stays
/// tracked, and there are no others. It gives as many candidates as were asked for,
/// and fewer only when no key stays. The key count is then the number of keys that
/// stay; the watermark and the eviction counter are as they were.
pub proof fn law_selection_parts_the_keys(s: LruState, t: LruState, n: nat, picks: Seq<u64>)
    requires
        s.last_access.dom().finite(),
        selected(s, t, n, picks),
    ensures
        picks.no_duplicates(),
        forall|k: u64| #[trigger] tracked_key(s, k) <==> picks.contains(k) || tracked_key(t, k),
        forall|k: u64| #[trigger] picks.contains(k) ==> !tracked_key(t, k),
        picks.len() <= n,
        picks.len() < n ==> forall|k: u64| !#[trigger] tracked_key(t, k),
        n > 0 && (exists|k: u64| #[trigger] tracked_key(s, k)) ==> picks.len() > 0,
        t.key_count == t.last_access.dom().len(),
        t.watermark == s.watermark,
        t.evicted == s.evicted,
{
    let all = merged(s.last_access, s.accesses);
    law_merging_keeps_keys(s.last_access, s.accesses);
    assert forall|k: u64| #[trigger] tracked_key(s, k) <==> all.contains_key(k) by {}
    assert forall|k: u64| #[trigger] tracked_key(t, k) <==> all.contains_key(k) && !picks.contains(
        k,
    ) by {
        assert(picks.to_set().contains(k) == picks.contains(k));
    }
    assert forall|k: u64| #[trigger] picks.contains(k) implies all.contains_key(k) by {
        let i = choose|i: int| 0 <= i < picks.len() && picks[i] == k;
        assert(all.contains_key(picks[i]));
    }
    picks.unique_seq_to_set();
    assert(picks.to_set().subset_of(all.dom()));
    if picks.len() < n {
        assert(picks.len() == all.dom().len());
        vstd::set_lib::lemma_subset_equality(picks.to_set(), all.dom());
        assert forall|k: u64| !#[trigger] tracked_key(t, k) by {
            assert(picks.to_set().contains(k) == all.dom().contains(k));
        }
    }
    if n > 0 && (exists|k: u64| #[trigger] tracked_key(s, k)) {
        let k = choose|k: u64| #[trigger] tracked_key(s, k);
        assert(all.dom().contains(k));
        if picks.len() == 0 {
            assert(all.dom().len() == 0);
            assert(all.dom() =~= Set::<u64>::empty());
        }
    }
}

/// Candidates come oldest first.
pub proof fn law_candidates_come_in_order(s: LruState, t: LruState, n: nat, picks: Seq<u64>)
    requires
        selected(s, t, n, picks),
    ensures
        forall|i: int, j: int|
            0 <= i <= j < picks.len() ==> merged(s.last_access, s.accesses)[#[trigger] picks[i]]
                <= merged(s.last_access, s.accesses)[#[trigger] picks[j]],
        forall|k: u64| #[trigger]
            t.last_access.contains_key(k) ==> t.last_access[k] == merged(
                s.last_access,
                s.accesses,
            )[k],
{
}

/// An access is tracked and counted, with its time as the last of the key's; the other
/// keys keep theirs.
pub proof fn law_access_is_tracked(s: LruState, key_hash: u64, now: u64)
    ensures
        ({
            let t = accessed(s, key_hash, now);
            let (before, after) = (
                merged(s.last_access, s.accesses),
                merged(t.last_access, t.accesses),
            );
            &&& tracked_key(t, key_hash)
            &&& after == before.insert(key_hash, now)
            &&& s.key_count < u64::MAX ==> t.key_count == s.key_count + 1
            &&& t.watermark == s.watermark
            &&& t.evicted == s.evicted
        }),
{
    let t = accessed(s, key_hash, now);
    assert(t.accesses.drop_last() =~= s.accesses);
    assert(t.accesses[t.accesses.len() - 1].0 == key_hash);
}

} // verus!
