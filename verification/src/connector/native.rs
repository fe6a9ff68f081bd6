//! The state behind the connector's batch operations.
//!
//! Keys are LMCache ObjectKey strings, hashed with XXH64. A batch operation is
//! performed when it is submitted; its completion waits until it is drained. The
//! caller notifies whoever waits for completions after each submission.

use vstd::prelude::*;
use vstd::string::*;

use crate::control::tenant;
use crate::engine::chain_laws;
use crate::engine::chain_laws::Step;
use crate::engine::cuckoo;
use crate::engine::cuckoo::CuckooTable;
use crate::engine::cuckoo_laws;
use crate::engine::extent;
use crate::engine::extent::{LargeObjectRegion, RegionState};
use crate::engine::extent_laws;
use crate::engine::layout;
use crate::engine::layout::{BucketMode, HashedKey, Slot};
use crate::hash;

verus! {

/// Buckets of the connector's table.
pub const CONNECTOR_BUCKETS: u64 = 1_048_576;

/// Maximum kick chain of the connector's table.
pub const CONNECTOR_MAX_KICK: u32 = 16;

/// Values up to this many bytes are stored in the bucket.
pub const INLINE_MAX: usize = 32;

// ---------------------------------------------------------------------------
// Key hashing
// ---------------------------------------------------------------------------
/// Hash an LMCache ObjectKey string into a [`HashedKey`].
///
/// Uses XXH64 with seed=0 for the 64-bit hash and seed=1 for a secondary
/// 64-bit value; the 16-byte digest is made of both.
pub fn hash_lmcache_key(key: &str) -> (k: HashedKey)
    ensures
        k.hash == hash::xxh64_of(key.spec_bytes(), 0),
        k.digest@ == tenant::digest_of(
            hash::xxh64_of(key.spec_bytes(), 0),
            hash::xxh64_of(key.spec_bytes(), 1),
        ),
{
    let bytes: &[u8] = key.as_bytes();
    tenant::key_from_hashes(hash::xxh64(bytes, 0), hash::xxh64(bytes, 1))
}

/// The hashed keys belong to the strings.
pub open spec fn hashes_of(hashed: Seq<HashedKey>, keys: Seq<String>) -> bool {
    &&& hashed.len() == keys.len()
    &&& forall|i: int|
        0 <= i < keys.len() ==> {
            let bytes = vstd::utf8::encode_utf8((#[trigger] keys[i])@);
            &&& hashed[i].hash == hash::xxh64_of(bytes, 0)
            &&& hashed[i].digest@ == tenant::digest_of(
                hash::xxh64_of(bytes, 0),
                hash::xxh64_of(bytes, 1),
            )
        }
}

/// Hashes the keys of a batch.
fn hash_all(keys: &[String]) -> (r: Vec<HashedKey>)
    ensures
        hashes_of(r@, keys@),
{
    let mut r: Vec<HashedKey> = Vec::new();
    let mut i: usize = 0;
    while i < keys.len()
        invariant
            i <= keys@.len(),
            hashes_of(r@, keys@.take(i as int)),
        decreases keys@.len() - i,
    {
        let ghost before = r@;
        r.push(hash_lmcache_key(keys[i].as_str()));
        proof {
            let done = keys@.take(i + 1);
            assert forall|j: int| 0 <= j < done.len() implies {
                let bytes = vstd::utf8::encode_utf8((#[trigger] done[j])@);
                &&& r@[j].hash == hash::xxh64_of(bytes, 0)
                &&& r@[j].digest@ == tenant::digest_of(
                    hash::xxh64_of(bytes, 0),
                    hash::xxh64_of(bytes, 1),
                )
            } by {
                if j < i {
                    assert(keys@.take(i as int)[j] == done[j]);
                    assert(r@[j] == before[j]);
                }
            }
        }
        i = i + 1;
    }
    assert(keys@.take(i as int) =~= keys@);
    r
}

// ---------------------------------------------------------------------------
// Model
// ---------------------------------------------------------------------------
/// A completed batch operation as a value.
#[verifier::ext_equal]
pub struct CompletionView {
    pub future_id: u64,
    pub ok: bool,
    pub error: Seq<char>,
    pub per_key: Option<Seq<bool>>,
}

/// The connector as a value.
#[verifier::ext_equal]
pub struct ConnectorView {
    pub table: Seq<Slot>,
    pub region: RegionState,
    pub next_id: u64,
    pub completions: Seq<CompletionView>,
    pub closed: bool,
}

/// Which keys the table holds.
pub open spec fn found_in(t: Seq<Slot>, keys: Seq<HashedKey>) -> Seq<bool> {
    Seq::new(keys.len(), |i: int| cuckoo::find_in(t, keys[i].hash, keys[i].digest@) is Some)
}

/// The deletion of a key: the table, and whether the key was there.
pub open spec fn delete_one(t: Seq<Slot>, key: HashedKey) -> (Seq<Slot>, bool) {
    match cuckoo::find_in(t, key.hash, key.digest@) {
        Some(i) => (t.update(i, cuckoo::tombstoned(t[i])), true),
        None => (t, false),
    }
}

/// The deletion of keys, one after the other.
pub open spec fn delete_all(t: Seq<Slot>, keys: Seq<HashedKey>) -> (Seq<Slot>, Seq<bool>)
    decreases keys.len(),
{
    if keys.len() == 0 {
        (t, Seq::empty())
    } else {
        let (u, done) = delete_all(t, keys.drop_last());
        let (v, deleted) = delete_one(u, keys.last());
        (v, done.push(deleted))
    }
}

/// A slot with the key is inserted into the table; whether it found a place.
pub open spec fn insert_slot(t: Seq<Slot>, new: Slot) -> (Seq<Slot>, bool) {
    if new.hash == 0 {
        (t, false)
    } else {
        cuckoo::insert_in(t, new, CONNECTOR_MAX_KICK as nat)
    }
}

/// The slot of a key whose value is stored in it.
pub open spec fn inline_slot(key: HashedKey, data: Seq<u8>) -> Slot {
    layout::fresh_slot(key.hash, key.digest@, cuckoo::packed(data, false), false)
}

/// The slot of a key whose value is in the extent at `offset`.
pub open spec fn extent_slot(key: HashedKey, offset: u64, len: nat) -> Slot {
    layout::fresh_slot(key.hash, key.digest@, cuckoo::extent_body(offset, len as u64), true)
}

/// Storing a value: in the bucket up to 32 bytes, in an extent above.
pub open spec fn set_one(t: Seq<Slot>, region: RegionState, key: HashedKey, data: Seq<u8>) -> (
    Seq<Slot>,
    RegionState,
    bool,
) {
    if data.len() <= INLINE_MAX {
        let (u, ok) = insert_slot(t, inline_slot(key, data));
        (u, region, ok)
    } else {
        match extent::allocate_in(region, data) {
            (r, Some(offset)) => {
                let (u, ok) = insert_slot(t, extent_slot(key, offset, data.len()));
                (u, r, ok)
            },
            (r, None) => (t, r, false),
        }
    }
}

/// Storing values, one after the other.
pub open spec fn set_all(
    t: Seq<Slot>,
    region: RegionState,
    keys: Seq<HashedKey>,
    values: Seq<Seq<u8>>,
) -> (Seq<Slot>, RegionState, Seq<bool>)
    decreases keys.len(),
{
    if keys.len() == 0 || values.len() < keys.len() {
        (t, region, Seq::empty())
    } else {
        let (u, r, done) = set_all(t, region, keys.drop_last(), values);
        let (v, r2, ok) = set_one(u, r, keys.last(), values[keys.len() - 1]);
        (v, r2, done.push(ok))
    }
}

/// The connector with a completion of the next future behind the others.
pub open spec fn completed(c: ConnectorView, per_key: Seq<bool>) -> ConnectorView {
    ConnectorView {
        next_id: ((c.next_id + 1) % 0x1_0000_0000_0000_0000) as u64,
        completions: c.completions.push(
            CompletionView {
                future_id: c.next_id,
                ok: true,
                error: Seq::empty(),
                per_key: Some(per_key),
            },
        ),
        ..c
    }
}

/// The shorter of two lengths.
pub open spec fn shorter(a: nat, b: nat) -> nat {
    if a < b {
        a
    } else {
        b
    }
}

/// The bytes of values.
pub open spec fn value_bytes(values: Seq<Vec<u8>>) -> Seq<Seq<u8>> {
    Seq::new(values.len(), |i: int| values[i]@)
}

// ---------------------------------------------------------------------------
// RDMANativeConnector
// ---------------------------------------------------------------------------
/// Completed batch operation result.
#[derive(Debug)]
struct Completion {
    future_id: u64,
    ok: bool,
    error: String,
    per_key_bools: Option<Vec<bool>>,
}

impl View for Completion {
    type V = CompletionView;

    closed spec fn view(&self) -> CompletionView {
        CompletionView {
            future_id: self.future_id,
            ok: self.ok,
            error: self.error@,
            per_key: match self.per_key_bools {
                Some(b) => Some(b@),
                None => None,
            },
        }
    }
}

/// A drained completion as a value.
pub open spec fn drained(d: (u64, bool, String, Option<Vec<bool>>)) -> CompletionView {
    CompletionView {
        future_id: d.0,
        ok: d.1,
        error: d.2@,
        per_key: match d.3 {
            Some(b) => Some(b@),
            None => None,
        },
    }
}

/// RDMA connector for LMCache L2 storage.
///
/// Provides batch get/set/exists/delete operations with completions, on an
/// in-memory Cuckoo hash table and extent storage.
pub struct RDMANativeConnector {
    /// Cuckoo hash table.
    table: CuckooTable,
    /// Large-object extent storage.
    large_objects: LargeObjectRegion,
    /// Monotonically increasing future_id counter.
    next_id: u64,
    /// Completed operation results waiting to be drained.
    completions: Vec<Completion>,
    /// Whether `close()` has already been called.
    closed: bool,
    /// Batch chunk threshold in bytes.
    batch_chunk_num_bytes: u64,
    /// Number of background worker threads.
    num_workers: usize,
}

impl View for RDMANativeConnector {
    type V = ConnectorView;

    closed spec fn view(&self) -> ConnectorView {
        ConnectorView {
            table: self.table@,
            region: self.large_objects@,
            next_id: self.next_id,
            completions: Seq::new(self.completions@.len(), |i: int| self.completions@[i]@),
            closed: self.closed,
        }
    }
}

proof fn lemma_connector_buckets()
    ensures
        cuckoo::power_of_two(CONNECTOR_BUCKETS as int),
{
    reveal_with_fuel(cuckoo::power_of_two, 22);
}

impl RDMANativeConnector {
    /// The table and the region are in order, and the region is sound.
    pub closed spec fn wf(&self) -> bool {
        &&& self.table.wf()
        &&& self.table@.len() >= 2
        &&& self.table.kick_limit() == CONNECTOR_MAX_KICK
        &&& self.large_objects.wf()
        &&& extent::sound(self.large_objects@)
    }

    /// The number of background workers and the batch chunk threshold.
    pub closed spec fn settings(&self) -> (usize, u64) {
        (self.num_workers, self.batch_chunk_num_bytes)
    }

    /// Create a new RDMA connector.
    ///
    /// # Arguments
    ///
    /// - `num_workers`: Number of background worker threads.
    /// - `batch_chunk_num_bytes`: Batch chunk threshold in bytes; the extent
    ///   storage holds ten of them.
    pub fn new(num_workers: usize, batch_chunk_num_bytes: u64) -> (r: Self)
        requires
            batch_chunk_num_bytes * 10 <= usize::MAX,
        ensures
            r.wf(),
            r.settings() == (num_workers, batch_chunk_num_bytes),
            r@.table == cuckoo::empty_table(CONNECTOR_BUCKETS as nat),
            r@.table.len() == 1_048_576,
            r@.region == extent::empty_region((batch_chunk_num_bytes * 10) as nat),
            r@.next_id == 1,
            r@.completions == Seq::<CompletionView>::empty(),
            !r@.closed,
    {
        proof {
            lemma_connector_buckets();
        }
        let table = CuckooTable::new(CONNECTOR_BUCKETS, CONNECTOR_MAX_KICK);
        let large_objects = LargeObjectRegion::new((batch_chunk_num_bytes * 10) as usize);
        proof {
            extent_laws::law_empty_region_is_sound(large_objects@);
        }
        let r = RDMANativeConnector {
            table,
            large_objects,
            next_id: 1,
            completions: Vec::new(),
            closed: false,
            batch_chunk_num_bytes,
            num_workers,
        };
        assert(r@.completions =~= Seq::<CompletionView>::empty());
        r
    }

    /// Number of background worker threads.
    pub fn num_workers(&self) -> (n: usize)
        ensures
            n == self.settings().0,
    {
        self.num_workers
    }

    /// Batch chunk threshold in bytes.
    pub fn batch_chunk_num_bytes(&self) -> (n: u64)
        ensures
            n == self.settings().1,
    {
        self.batch_chunk_num_bytes
    }

    /// Takes a future id and files its completion.
    fn complete(&mut self, per_key: Vec<bool>) -> (future_id: u64)
        requires
            old(self).wf(),
        ensures
            final(self).wf(),
            final(self).settings() == old(self).settings(),
            future_id == old(self)@.next_id,
            final(self)@ == completed(old(self)@, per_key@),
    {
        let future_id: u64 = self.next_id;
        self.next_id = future_id.wrapping_add(1);
        let c = Completion {
            future_id,
            ok: true,
            error: String::new(),
            per_key_bools: Some(per_key),
        };
        let ghost shown = c@;
        self.completions.push(c);
        assert(shown =~= (CompletionView {
            future_id: old(self)@.next_id,
            ok: true,
            error: Seq::empty(),
            per_key: Some(per_key@),
        }));
        assert(self@ =~= completed(old(self)@, per_key@));
        future_id
    }

    /// Which keys the table holds.
    fn lookup_all(&self, keys: &[HashedKey]) -> (r: Vec<bool>)
        requires
            self.wf(),
        ensures
            r@ == found_in(self@.table, keys@),
    {
        let mut r: Vec<bool> = Vec::new();
        let mut i: usize = 0;
        while i < keys.len()
            invariant
                i <= keys@.len(),
                self.wf(),
                r@.len() == i,
                forall|j: int|
                    0 <= j < i ==> #[trigger] r@[j] == (cuckoo::find_in(
                        self@.table,
                        keys@[j].hash,
                        keys@[j].digest@,
                    ) is Some),
            decreases keys@.len() - i,
        {
            let found: bool = match self.table.lookup(&keys[i]) {
                Some(_) => true,
                None => false,
            };
            r.push(found);
            i = i + 1;
        }
        assert(r@ =~= found_in(self@.table, keys@));
        r
    }

    /// Submit a batch read operation.
    ///
    /// Returns a `future_id` that can be matched against completions
    /// returned by `drain_completions()`; the completion tells which keys exist.
    pub fn submit_batch_get(&mut self, keys: &[String]) -> (future_id: u64)
        requires
            old(self).wf(),
        ensures
            final(self).wf(),
            final(self).settings() == old(self).settings(),
            future_id == old(self)@.next_id,
            exists|hashed: Seq<HashedKey>| #[trigger]
                hashes_of(hashed, keys@) && final(self)@ == completed(
                    old(self)@,
                    found_in(old(self)@.table, hashed),
                ),
    {
        let hashed: Vec<HashedKey> = hash_all(keys);
        let r = self.submit_hashed_exists(&hashed);
        assert(hashes_of(hashed@, keys@));
        r
    }

    /// Submit a batch existence check.
    ///
    /// Returns a `future_id`; the completion's `per_key_bools` indicates
    /// which keys exist in the store.
    pub fn submit_batch_exists(&mut self, keys: &[String]) -> (future_id: u64)
        requires
            old(self).wf(),
        ensures
            final(self).wf(),
            final(self).settings() == old(self).settings(),
            future_id == old(self)@.next_id,
            exists|hashed: Seq<HashedKey>| #[trigger]
                hashes_of(hashed, keys@) && final(self)@ == completed(
                    old(self)@,
                    found_in(old(self)@.table, hashed),
                ),
    {
        let hashed: Vec<HashedKey> = hash_all(keys);
        let r = self.submit_hashed_exists(&hashed);
        assert(hashes_of(hashed@, keys@));
        r
    }

    /// The existence check of keys that are hashed.
    pub fn submit_hashed_exists(&mut self, keys: &[HashedKey]) -> (future_id: u64)
        requires
            old(self).wf(),
        ensures
            final(self).wf(),
            final(self).settings() == old(self).settings(),
            future_id == old(self)@.next_id,
            final(self)@ == completed(old(self)@, found_in(old(self)@.table, keys@)),
    {
        let results: Vec<bool> = self.lookup_all(keys);
        self.complete(results)
    }

    /// Submit a batch write operation.
    ///
    /// Each key is paired with the corresponding value, as far as both go. Values
    /// up to 32 bytes are stored inline in the Cuckoo bucket; larger values are
    /// stored as extents in the large-object region.
    ///
    /// Returns a `future_id` for matching against completions.
    pub fn submit_batch_set(&mut self, keys: &[String], values: &[Vec<u8>]) -> (future_id: u64)
        requires
            old(self).wf(),
            forall|i: int| 0 <= i < values@.len() ==> (#[trigger] values@[i])@.len() + 39
                <= u64::MAX,
        ensures
            final(self).wf(),
            final(self).settings() == old(self).settings(),
            future_id == old(self)@.next_id,
            exists|hashed: Seq<HashedKey>| #[trigger]
                hashes_of(hashed, keys@) && ({
                    let n = shorter(hashed.len(), values@.len()) as int;
                    let (t, region, ok) = set_all(
                        old(self)@.table,
                        old(self)@.region,
                        hashed.take(n),
                        value_bytes(values@),
                    );
                    final(self)@ == completed(
                        ConnectorView { table: t, region, ..old(self)@ },
                        ok,
                    )
                }),
    {
        let hashed: Vec<HashedKey> = hash_all(keys);
        let r = self.submit_hashed_set(&hashed, values);
        assert(hashes_of(hashed@, keys@));
        r
    }

    /// Stores a value under a key; whether it found a place.
    fn set(&mut self, key: &HashedKey, data: &[u8]) -> (ok: bool)
        requires
            old(self).wf(),
            data@.len() + 39 <= u64::MAX,
        ensures
            final(self).wf(),
            final(self).settings() == old(self).settings(),
            ({
                let (t, region, done) = set_one(
                    old(self)@.table,
                    old(self)@.region,
                    *key,
                    data@,
                );
                ok == done && final(self)@ == (ConnectorView { table: t, region, ..old(self)@ })
            }),
    {
        proof {
            old(self).table.lemma_wf();
            extent_laws::law_allocate(old(self).large_objects@, data@);
            lemma_insert_len(
                old(self)@.table,
                inline_slot(*key, data@),
                CONNECTOR_MAX_KICK as nat,
            );
        }
        if data.len() <= INLINE_MAX {
            let ok: bool = match self.table.insert(key, data, BucketMode::Inline) {
                Ok(_) => true,
                Err(_) => false,
            };
            assert(self@ =~= (ConnectorView {
                table: set_one(old(self)@.table, old(self)@.region, *key, data@).0,
                region: set_one(old(self)@.table, old(self)@.region, *key, data@).1,
                ..old(self)@
            }));
            return ok;
        }
        match self.large_objects.allocate(data) {
            Some(offset) => {
                proof {
                    lemma_insert_len(
                        old(self)@.table,
                        extent_slot(*key, offset, data@.len()),
                        CONNECTOR_MAX_KICK as nat,
                    );
                }
                let ok: bool = match self.table.insert_extent(key, offset, data.len() as u64) {
                    Ok(_) => true,
                    Err(_) => false,
                };
                assert(self@ =~= (ConnectorView {
                    table: set_one(old(self)@.table, old(self)@.region, *key, data@).0,
                    region: set_one(old(self)@.table, old(self)@.region, *key, data@).1,
                    ..old(self)@
                }));
                ok
            },
            None => {
                assert(self@ =~= old(self)@);
                false
            },
        }
    }

    /// The batch write of keys that are hashed.
    pub fn submit_hashed_set(&mut self, keys: &[HashedKey], values: &[Vec<u8>]) -> (future_id: u64)
        requires
            old(self).wf(),
            forall|i: int| 0 <= i < values@.len() ==> (#[trigger] values@[i])@.len() + 39
                <= u64::MAX,
        ensures
            final(self).wf(),
            final(self).settings() == old(self).settings(),
            future_id == old(self)@.next_id,
            ({
                let n = shorter(keys@.len(), values@.len()) as int;
                let (t, region, ok) = set_all(
                    old(self)@.table,
                    old(self)@.region,
                    keys@.take(n),
                    value_bytes(values@),
                );
                final(self)@ == completed(ConnectorView { table: t, region, ..old(self)@ }, ok)
            }),
    {
        let n: usize = if keys.len() < values.len() {
            keys.len()
        } else {
            values.len()
        };
        let ghost bytes = value_bytes(values@);
        let mut results: Vec<bool> = Vec::new();
        let mut i: usize = 0;
        while i < n
            invariant
                i <= n <= keys@.len(),
                n <= values@.len(),
                bytes == value_bytes(values@),
                self.wf(),
                self.settings() == old(self).settings(),
                forall|j: int| 0 <= j < values@.len() ==> (#[trigger] values@[j])@.len() + 39
                    <= u64::MAX,
                ({
                    let (t, region, ok) = set_all(
                        old(self)@.table,
                        old(self)@.region,
                        keys@.take(i as int),
                        bytes,
                    );
                    self@ == (ConnectorView { table: t, region, ..old(self)@ }) && results@ == ok
                }),
            decreases n - i,
        {
            proof {
                assert(keys@.take(i + 1).drop_last() =~= keys@.take(i as int));
                assert(keys@.take(i + 1).last() == keys@[i as int]);
                assert(bytes[i as int] == values@[i as int]@);
            }
            let ok: bool = self.set(&keys[i], &values[i]);
            results.push(ok);
            i = i + 1;
        }
        self.complete(results)
    }

    /// Submit a batch delete operation.
    ///
    /// Returns a `future_id`; the completion's `per_key_bools` indicates
    /// which keys were successfully deleted (i.e., existed before the call).
    pub fn submit_batch_delete(&mut self, keys: &[String]) -> (future_id: u64)
        requires
            old(self).wf(),
        ensures
            final(self).wf(),
            final(self).settings() == old(self).settings(),
            future_id == old(self)@.next_id,
            exists|hashed: Seq<HashedKey>| #[trigger]
                hashes_of(hashed, keys@) && ({
                    let (t, deleted) = delete_all(old(self)@.table, hashed);
                    final(self)@ == completed(ConnectorView { table: t, ..old(self)@ }, deleted)
                }),
    {
        let hashed: Vec<HashedKey> = hash_all(keys);
        let r = self.submit_hashed_delete(&hashed);
        assert(hashes_of(hashed@, keys@));
        r
    }

    /// The batch delete of keys that are hashed.
    pub fn submit_hashed_delete(&mut self, keys: &[HashedKey]) -> (future_id: u64)
        requires
            old(self).wf(),
        ensures
            final(self).wf(),
            final(self).settings() == old(self).settings(),
            future_id == old(self)@.next_id,
            ({
                let (t, deleted) = delete_all(old(self)@.table, keys@);
                final(self)@ == completed(ConnectorView { table: t, ..old(self)@ }, deleted)
            }),
    {
        let mut results: Vec<bool> = Vec::new();
        let mut i: usize = 0;
        while i < keys.len()
            invariant
                i <= keys@.len(),
                self.wf(),
                self.settings() == old(self).settings(),
                ({
                    let (t, deleted) = delete_all(old(self)@.table, keys@.take(i as int));
                    self@ == (ConnectorView { table: t, ..old(self)@ }) && results@ == deleted
                }),
            decreases keys@.len() - i,
        {
            proof {
                assert(keys@.take(i + 1).drop_last() =~= keys@.take(i as int));
                assert(keys@.take(i + 1).last() == keys@[i as int]);
                self.table.lemma_wf();
                cuckoo::lemma_candidates(keys@[i as int].hash, self.table@.len() as int);
            }
            let ghost before = self@;
            let deleted: bool = self.table.delete(&keys[i]);
            assert(self@ =~= (ConnectorView {
                table: delete_one(before.table, keys@[i as int]).0,
                ..before
            }));
            results.push(deleted);
            i = i + 1;
        }
        assert(keys@.take(i as int) =~= keys@);
        self.complete(results)
    }

    /// Drain all completed futures.
    ///
    /// Each element is `(future_id, ok, error, per_key_bools)`:
    /// - `future_id`: matches the value returned by a `submit_*` call.
    /// - `ok`: whether the batch succeeded overall.
    /// - `error`: error message if `ok` is `False`.
    /// - `per_key_bools`: per-key results for set/delete/exists; also
    ///   populated for get (indicates key existence).
    pub fn drain_completions(&mut self) -> (r: Vec<(u64, bool, String, Option<Vec<bool>>)>)
        requires
            old(self).wf(),
        ensures
            final(self).wf(),
            final(self).settings() == old(self).settings(),
            r@.len() == old(self)@.completions.len(),
            forall|i: int|
                0 <= i < r@.len() ==> drained(#[trigger] r@[i]) == old(self)@.completions[i],
            forall|i: int|
                0 <= i < r@.len() ==> {
                    let c = old(self)@.completions[i];
                    &&& (#[trigger] r@[i]).0 == c.future_id
                    &&& r@[i].1 == c.ok
                    &&& r@[i].2@ == c.error
                    &&& r@[i].3 is Some == c.per_key is Some
                    &&& r@[i].3 matches Some(b) ==> c.per_key == Some(b@)
                },
            final(self)@ == (ConnectorView { completions: Seq::empty(), ..old(self)@ }),
    {
        let mut waiting: Vec<Completion> = Vec::new();
        std::mem::swap(&mut waiting, &mut self.completions);
        assert(self@ =~= (ConnectorView { completions: Seq::empty(), ..old(self)@ }));
        let ghost all = old(self)@.completions;
        let ghost taken = waiting@;
        // From the last to the first, then the other way round.
        let mut backwards: Vec<(u64, bool, String, Option<Vec<bool>>)> = Vec::new();
        while waiting.len() > 0
            invariant
                waiting@.len() + backwards@.len() == all.len() == taken.len(),
                waiting@ == taken.take(waiting@.len() as int),
                forall|i: int| 0 <= i < all.len() ==> #[trigger] all[i] == taken[i]@,
                forall|i: int|
                    0 <= i < backwards@.len() ==> drained(#[trigger] backwards@[i])
                        == all[all.len() - 1 - i],
            decreases waiting@.len(),
        {
            let ghost k = waiting@.len() - 1;
            if let Some(c) = waiting.pop() {
                assert(c == taken[k]);
                assert(all[k] == taken[k]@);
                backwards.push((c.future_id, c.ok, c.error, c.per_key_bools));
            }
        }
        let mut r: Vec<(u64, bool, String, Option<Vec<bool>>)> = Vec::new();
        while backwards.len() > 0
            invariant
                backwards@.len() + r@.len() == all.len(),
                forall|i: int|
                    0 <= i < backwards@.len() ==> drained(#[trigger] backwards@[i])
                        == all[all.len() - 1 - i],
                forall|i: int| 0 <= i < r@.len() ==> drained(#[trigger] r@[i]) == all[i],
            decreases backwards@.len(),
        {
            if let Some(d) = backwards.pop() {
                r.push(d);
            }
        }
        r
    }

    /// Gracefully shut down the connector. Returns `true` on the first call: only
    /// then there are workers to stop. Idempotent: safe to call multiple times.
    pub fn close(&mut self) -> (first: bool)
        requires
            old(self).wf(),
        ensures
            final(self).wf(),
            final(self).settings() == old(self).settings(),
            first == !old(self)@.closed,
            final(self)@ == (ConnectorView { closed: true, ..old(self)@ }),
    {
        let first: bool = !self.closed;
        self.closed = true;
        assert(self@ =~= (ConnectorView { closed: true, ..old(self)@ }));
        first
    }
}

/// An insertion does not change the number of slots.
proof fn lemma_insert_len(t: Seq<Slot>, new: Slot, max_kick: nat)
    requires
        cuckoo::two_choice(t.len() as int),
    ensures
        cuckoo::insert_in(t, new, max_kick).0.len() == t.len(),
{
    cuckoo::lemma_candidates(new.hash, t.len() as int);
    lemma_kick_len(t, cuckoo::h1_of(new.hash, t.len() as int), new, max_kick);
}

proof fn lemma_kick_len(t: Seq<Slot>, at: int, hand: Slot, fuel: nat)
    requires
        cuckoo::two_choice(t.len() as int),
        0 <= at < t.len(),
    ensures
        cuckoo::kick_in(t, at, hand, fuel) matches Some(u) ==> u.len() == t.len(),
    decreases fuel,
{
    if fuel > 0 {
        let victim = cuckoo::refreshed(t[at]);
        let swapped = t.update(at, hand);
        let alt = cuckoo::alternate_of(victim.hash, at, t.len() as int);
        cuckoo::lemma_candidates(victim.hash, t.len() as int);
        if !layout::vacant(swapped[alt]) {
            lemma_kick_len(swapped, alt, victim, (fuel - 1) as nat);
        }
    }
}

// ---------------------------------------------------------------------------
// Laws
// ---------------------------------------------------------------------------
/// The key is stored with the value: up to 32 bytes in the bucket, padded with zeros,
/// and above by a reference to a live extent that reads as the value.
pub open spec fn stored_as(t: Seq<Slot>, r: RegionState, key: HashedKey, data: Seq<u8>) -> bool {
    let map = cuckoo_laws::contents(t);
    let k = (key.hash, key.digest@);
    &&& map.dom().contains(k)
    &&& if data.len() <= 32 {
        &&& !map[k].1
        &&& map[k].0.len() == 32
        &&& forall|i: int|
            0 <= i < 32 ==> #[trigger] map[k].0[i] == if i < data.len() {
                data[i]
            } else {
                0u8
            }
    } else {
        let (off, len) = layout::body_extent_ref(map[k].0);
        &&& map[k].1
        &&& len == data.len()
        &&& off <= u64::MAX
        &&& r.allocated.contains(off as u64)
        &&& extent::extent_payload(r.buffer, off as int) == Some(data)
    }
}

/// Every extent that was live is live and reads as before.
pub open spec fn extents_stay(before: RegionState, after: RegionState) -> bool {
    forall|a: u64| #[trigger]
        before.allocated.contains(a) ==> after.allocated.contains(a) && extent::extent_payload(
            after.buffer,
            a as int,
        ) == extent::extent_payload(before.buffer, a as int)
}

/// There is a reason to refuse a value: the key has no hash; or the value is longer than
/// 32 bytes and neither a freed extent nor the end of the region has room for it; or
/// the key is new, both of its slots are taken, and sixteen kicks meet no vacant slot.
pub open spec fn refusable(t: Seq<Slot>, r: RegionState, key: HashedKey, data: Seq<u8>) -> bool {
    let n = t.len() as int;
    let need = extent_laws::taken_up(data.len() as int);
    let a = cuckoo::h1_of(key.hash, n);
    ||| key.hash == 0
    ||| data.len() > 32 && r.next_offset + need > r.buffer.len() && forall|i: int|
        0 <= i < r.free_list.len() ==> (#[trigger] r.free_list[i]).1 < need
    ||| {
        &&& cuckoo::find_in(t, key.hash, key.digest@) is None
        &&& !layout::vacant(t[a])
        &&& !layout::vacant(t[cuckoo::h2_of(key.hash, n)])
        &&& exists|steps: Seq<Step>| #[trigger]
            chain_laws::blocked(t, a, steps[0].1, 16, steps) && cuckoo_laws::key_of(steps[0].1) == (
            key.hash,
            key.digest@,
        )
    }
}

/// A value that is stored is there: the table holds its key, with the value in the
/// bucket or a reference to an extent that holds it, and no other entry changes.
pub proof fn law_set(t: Seq<Slot>, region: RegionState, key: HashedKey, data: Seq<u8>)
    requires
        cuckoo_laws::valid(t),
        extent::sound(region),
        data.len() <= u32::MAX,
        set_one(t, region, key, data).2,
    ensures
        ({
            let (u, r, _) = set_one(t, region, key, data);
            let k = (key.hash, key.digest@);
            let map = cuckoo_laws::contents(u);
            &&& cuckoo_laws::valid(u)
            &&& extent::sound(r)
            &&& cuckoo::find_in(u, key.hash, key.digest@) is Some
            &&& map == cuckoo_laws::contents(t).insert(k, map[k])
            &&& stored_as(u, r, key, data)
            &&& extents_stay(region, r)
            &&& data.len() <= 32 ==> r == region
        }),
{
    assert(INLINE_MAX == 32);
    layout::lemma_fresh_lock();
    extent_laws::law_allocate(region, data);
    let new = if data.len() <= INLINE_MAX {
        inline_slot(key, data)
    } else {
        let off = extent::allocate_in(region, data).1->0;
        cuckoo_laws::law_extent_body_reads_back(off, data.len() as u64);
        extent_slot(key, off, data.len())
    };
    cuckoo_laws::law_insert(t, new, CONNECTOR_MAX_KICK as nat);
    cuckoo_laws::law_insert_then_find(t, new, CONNECTOR_MAX_KICK as nat);
}

/// A refused value changes nothing that is stored: the table is as it was, so a key
/// that was not there is still not there and no other key is lost, and every extent
/// that was live reads as it did. The extent of a refused value stays allocated.
pub proof fn law_refused_set(t: Seq<Slot>, region: RegionState, key: HashedKey, data: Seq<u8>)
    requires
        cuckoo_laws::valid(t),
        extent::sound(region),
        data.len() + 39 <= u64::MAX,
        !set_one(t, region, key, data).2,
    ensures
        ({
            let (u, r, _) = set_one(t, region, key, data);
            &&& u == t
            &&& cuckoo_laws::contents(u) == cuckoo_laws::contents(t)
            &&& extent::sound(r)
            &&& forall|a: u64| #[trigger]
                region.allocated.contains(a) ==> r.allocated.contains(a) && extent::extent_payload(
                    r.buffer,
                    a as int,
                ) == extent::extent_payload(region.buffer, a as int)
            &&& data.len() <= INLINE_MAX ==> r == region
            // A key that is stored keeps its slot, so only the region can refuse it.
            &&& cuckoo::find_in(t, key.hash, key.digest@) is Some && key.hash != 0
                ==> data.len() > INLINE_MAX && extent::allocate_in(region, data).1 is None
            &&& refusable(t, region, key, data)
        }),
{
    assert(INLINE_MAX == 32);
    assert(CONNECTOR_MAX_KICK == 16);
    layout::lemma_fresh_lock();
    extent_laws::law_allocate(region, data);
    extent_laws::law_allocation_uses_room(region, data);
    let off = extent::allocate_in(region, data).1;
    if key.hash != 0 && (data.len() <= 32 || off is Some) {
        let new = if data.len() <= 32 {
            inline_slot(key, data)
        } else {
            extent_slot(key, off->0, data.len())
        };
        chain_laws::law_refusal_found_no_room(t, new, 16);
        let a = cuckoo::h1_of(key.hash, t.len() as int);
        let steps = choose|steps: Seq<Step>| chain_laws::blocked(t, a, new, 16, steps);
        assert(steps[0].1 == new);
        assert(chain_laws::blocked(t, a, steps[0].1, 16, steps));
    }
}

/// A key that is deleted is gone, and no other entry changes.
pub proof fn law_delete(t: Seq<Slot>, key: HashedKey)
    requires
        cuckoo_laws::valid(t),
        key.hash != 0,
    ensures
        ({
            let (u, deleted) = delete_one(t, key);
            let k = (key.hash, key.digest@);
            &&& cuckoo_laws::valid(u)
            &&& deleted == cuckoo_laws::contents(t).dom().contains(k)
            &&& cuckoo_laws::contents(u) == cuckoo_laws::contents(t).remove(k)
            &&& cuckoo::find_in(u, key.hash, key.digest@) is None
        }),
{
    let k = (key.hash, key.digest@);
    if cuckoo::find_in(t, key.hash, key.digest@) is Some {
        cuckoo_laws::law_delete(t, k);
    } else {
        assert(cuckoo_laws::contents(t).remove(k) =~= cuckoo_laws::contents(t));
    }
}

/// The futures of two submissions are different, until the ids wrap around.
pub proof fn law_future_ids_are_new(c: ConnectorView, per_key: Seq<bool>)
    requires
        c.next_id < u64::MAX,
    ensures
        completed(c, per_key).next_id > c.next_id,
        completed(c, per_key).completions.last().future_id == c.next_id,
{
}

/// The batch has this key.
pub open spec fn in_batch(keys: Seq<HashedKey>, k: cuckoo_laws::Key) -> bool {
    exists|i: int|
        0 <= i < keys.len() && (#[trigger] keys[i]).hash == k.0 && keys[i].digest@ == k.1
}

/// The batch has the key of its entry `i` again before (or after) that entry.
pub open spec fn repeated(keys: Seq<HashedKey>, i: int, from: int, to: int) -> bool {
    exists|j: int|
        from <= j < to && j != i && (#[trigger] keys[j]).hash == keys[i].hash && keys[j].digest@
            == keys[i].digest@
}

/// A batch get or existence check gives one result for each key, which is true exactly
/// when the map that the table represents has the key, that is when some slot holds it,
/// whatever the other keys of the batch are.
pub proof fn law_batch_lookup(t: Seq<Slot>, keys: Seq<HashedKey>)
    requires
        cuckoo_laws::valid(t),
    ensures
        found_in(t, keys).len() == keys.len(),
        forall|i: int|
            0 <= i < keys.len() && (#[trigger] keys[i]).hash != 0 ==> {
                &&& found_in(t, keys)[i] <==> cuckoo_laws::contents(t).dom().contains(
                    (keys[i].hash, keys[i].digest@),
                )
                &&& found_in(t, keys)[i] <==> exists|j: int|
                    0 <= j < t.len() && layout::holds(
                        #[trigger] t[j],
                        keys[i].hash,
                        keys[i].digest@,
                    )
            },
{
    assert forall|i: int| 0 <= i < keys.len() && (#[trigger] keys[i]).hash != 0 implies {
        &&& found_in(t, keys)[i] <==> cuckoo_laws::contents(t).dom().contains(
            (keys[i].hash, keys[i].digest@),
        )
        &&& found_in(t, keys)[i] <==> exists|j: int|
            0 <= j < t.len() && layout::holds(#[trigger] t[j], keys[i].hash, keys[i].digest@)
    } by {
        cuckoo_laws::law_two_probes(t, (keys[i].hash, keys[i].digest@));
    }
}

/// The map after a batch delete has the key exactly when the map before has it and the
/// batch does not name it, and then with the same value.
pub open spec fn deleted_entry(
    before: Map<cuckoo_laws::Key, cuckoo_laws::Value>,
    after: Map<cuckoo_laws::Key, cuckoo_laws::Value>,
    keys: Seq<HashedKey>,
    k: cuckoo_laws::Key,
) -> bool {
    &&& after.dom().contains(k) <==> before.dom().contains(k) && !in_batch(keys, k)
    &&& after.dom().contains(k) ==> after[k] == before[k]
}

/// A longer batch names one key more.
proof fn lemma_in_batch(keys: Seq<HashedKey>, k: cuckoo_laws::Key)
    requires
        keys.len() > 0,
    ensures
        in_batch(keys, k) <==> in_batch(keys.drop_last(), k) || k == (
            keys.last().hash,
            keys.last().digest@,
        ),
{
    let front = keys.drop_last();
    let n = front.len() as int;
    if in_batch(front, k) {
        let j = choose|j: int|
            0 <= j < front.len() && (#[trigger] front[j]).hash == k.0 && front[j].digest@ == k.1;
        assert(keys[j] == front[j]);
    }
    if in_batch(keys, k) {
        let j = choose|j: int|
            0 <= j < keys.len() && (#[trigger] keys[j]).hash == k.0 && keys[j].digest@ == k.1;
        if j < n {
            assert(front[j] == keys[j]);
        }
    }
    if k == (keys.last().hash, keys.last().digest@) {
        assert(keys[n].hash == k.0 && keys[n].digest@ == k.1);
    }
}

/// Where an entry of a batch comes again does not depend on what follows.
proof fn lemma_repeated(keys: Seq<HashedKey>, i: int, from: int, to: int)
    requires
        keys.len() > 0,
        0 <= i < keys.len() - 1,
        0 <= from,
        to <= keys.len() - 1,
    ensures
        repeated(keys.drop_last(), i, from, to) <==> repeated(keys, i, from, to),
        repeated(keys, i, from, to + 1) <==> repeated(keys, i, from, to) || (from <= to && to != i
            && keys[to].hash == keys[i].hash && keys[to].digest@ == keys[i].digest@),
{
    let front = keys.drop_last();
    if repeated(front, i, from, to) {
        let j = choose|j: int|
            from <= j < to && j != i && (#[trigger] front[j]).hash == front[i].hash
                && front[j].digest@ == front[i].digest@;
        assert(keys[j] == front[j]);
    }
    if repeated(keys, i, from, to) {
        let j = choose|j: int|
            from <= j < to && j != i && (#[trigger] keys[j]).hash == keys[i].hash
                && keys[j].digest@ == keys[i].digest@;
        assert(keys[j] == front[j]);
        assert(repeated(keys, i, from, to + 1));
    }
    if repeated(keys, i, from, to + 1) {
        let j = choose|j: int|
            from <= j < to + 1 && j != i && (#[trigger] keys[j]).hash == keys[i].hash
                && keys[j].digest@ == keys[i].digest@;
        if j < to {
            assert(repeated(keys, i, from, to));
        }
    }
}

/// The last entry of a batch comes before it exactly when the rest of the batch names
/// its key.
proof fn lemma_last_repeated(keys: Seq<HashedKey>)
    requires
        keys.len() > 0,
    ensures
        ({
            let n = keys.len() - 1;
            repeated(keys, n, 0, n) <==> in_batch(
                keys.drop_last(),
                (keys.last().hash, keys.last().digest@),
            )
        }),
{
    let front = keys.drop_last();
    let n = front.len() as int;
    let lk = (keys.last().hash, keys.last().digest@);
    if in_batch(front, lk) {
        let j = choose|j: int|
            0 <= j < front.len() && (#[trigger] front[j]).hash == lk.0 && front[j].digest@ == lk.1;
        assert(keys[j] == front[j]);
    }
    if repeated(keys, n, 0, n) {
        let j = choose|j: int|
            0 <= j < n && j != n && (#[trigger] keys[j]).hash == keys[n].hash && keys[j].digest@
                == keys[n].digest@;
        assert(keys[j] == front[j]);
    }
}

/// A batch delete removes every key of the batch from the map and leaves the others
/// alone. It gives one result for each key: whether the map had the key, which for a key
/// that comes again is so only the first time.
pub proof fn law_batch_delete(t: Seq<Slot>, keys: Seq<HashedKey>)
    requires
        cuckoo_laws::valid(t),
        forall|i: int| 0 <= i < keys.len() ==> (#[trigger] keys[i]).hash != 0,
    ensures
        cuckoo_laws::valid(delete_all(t, keys).0),
        delete_all(t, keys).0.len() == t.len(),
        delete_all(t, keys).1.len() == keys.len(),
        forall|k: cuckoo_laws::Key| #[trigger]
            deleted_entry(
                cuckoo_laws::contents(t),
                cuckoo_laws::contents(delete_all(t, keys).0),
                keys,
                k,
            ),
        forall|i: int|
            0 <= i < keys.len() ==> (#[trigger] delete_all(t, keys).1[i]
                <==> cuckoo_laws::contents(t).dom().contains((keys[i].hash, keys[i].digest@))
                && !repeated(keys, i, 0, i)),
    decreases keys.len(),
{
    let before = cuckoo_laws::contents(t);
    let (u, done) = delete_all(t, keys);
    let after = cuckoo_laws::contents(u);
    if keys.len() == 0 {
        assert forall|k: cuckoo_laws::Key| #[trigger]
            deleted_entry(before, after, keys, k) by {
            assert(!in_batch(keys, k));
        }
    } else {
        let front = keys.drop_last();
        let n = front.len() as int;
        assert forall|i: int| 0 <= i < front.len() implies (#[trigger] front[i]).hash != 0 by {
            assert(front[i] == keys[i]);
        }
        law_batch_delete(t, front);
        let (mid, done0) = delete_all(t, front);
        let between = cuckoo_laws::contents(mid);
        let last = keys.last();
        assert(keys[n] == last);
        let lk = (last.hash, last.digest@);
        law_delete(mid, last);
        assert(after == between.remove(lk));
        assert forall|k: cuckoo_laws::Key| #[trigger]
            deleted_entry(before, after, keys, k) by {
            lemma_in_batch(keys, k);
            assert(deleted_entry(before, between, front, k));
        }
        assert(deleted_entry(before, between, front, lk));
        lemma_last_repeated(keys);
        assert forall|i: int| 0 <= i < keys.len() implies (#[trigger] done[i]
            <==> before.dom().contains((keys[i].hash, keys[i].digest@)) && !repeated(
            keys,
            i,
            0,
            i,
        )) by {
            if i < n {
                assert(done[i] == done0[i]);
                assert(front[i] == keys[i]);
                lemma_repeated(keys, i, 0, i);
            }
        }
    }
}

/// What a batch set leaves of an entry of the batch: its value, when it was accepted and
/// the key does not come again; what the map had before, when it was refused and the key
/// comes nowhere else.
pub open spec fn set_entry(
    t: Seq<Slot>,
    u: Seq<Slot>,
    r: RegionState,
    keys: Seq<HashedKey>,
    values: Seq<Seq<u8>>,
    done: Seq<bool>,
    i: int,
) -> bool {
    let k = (keys[i].hash, keys[i].digest@);
    &&& done[i] && !repeated(keys, i, i + 1, keys.len() as int) ==> stored_as(
        u,
        r,
        keys[i],
        values[i],
    )
    &&& !done[i] && !repeated(keys, i, 0, keys.len() as int) ==> same_entry(
        cuckoo_laws::contents(t),
        cuckoo_laws::contents(u),
        k,
    )
}

/// A value that is stored stays, as long as its entry and the live extents stay.
proof fn lemma_stored_stays(
    t: Seq<Slot>,
    u: Seq<Slot>,
    r: RegionState,
    q: RegionState,
    key: HashedKey,
    data: Seq<u8>,
)
    requires
        stored_as(t, r, key, data),
        same_entry(
            cuckoo_laws::contents(t),
            cuckoo_laws::contents(u),
            (key.hash, key.digest@),
        ),
        extents_stay(r, q),
    ensures
        stored_as(u, q, key, data),
{
}

/// One set leaves the entries of the other keys alone, and the live extents.
proof fn lemma_set_elsewhere(
    t: Seq<Slot>,
    r: RegionState,
    key: HashedKey,
    data: Seq<u8>,
    u: Seq<Slot>,
    q: RegionState,
    ok: bool,
)
    requires
        cuckoo_laws::valid(t),
        extent::sound(r),
        data.len() <= u32::MAX,
        set_one(t, r, key, data) == (u, q, ok),
    ensures
        cuckoo_laws::valid(u),
        extent::sound(q),
        extents_stay(r, q),
        forall|k: cuckoo_laws::Key|
            k != (key.hash, key.digest@) ==> #[trigger] same_entry(
                cuckoo_laws::contents(t),
                cuckoo_laws::contents(u),
                k,
            ),
        ok ==> stored_as(u, q, key, data),
        !ok ==> u == t && refusable(t, r, key, data),
{
    if ok {
        law_set(t, r, key, data);
    } else {
        law_refused_set(t, r, key, data);
    }
}

/// A batch set with one more value is the set of that value after the batch.
proof fn lemma_batch_set_step(
    t: Seq<Slot>,
    region: RegionState,
    keys: Seq<HashedKey>,
    values: Seq<Seq<u8>>,
)
    requires
        0 < keys.len() <= values.len(),
    ensures
        ({
            let (mid, r0, done0) = set_all(t, region, keys.drop_last(), values);
            let (u, r, done) = set_all(t, region, keys, values);
            &&& done.len() == done0.len() + 1
            &&& done.drop_last() == done0
            &&& set_one(mid, r0, keys.last(), values[keys.len() - 1]) == (u, r, done.last())
        }),
{
    let (mid, r0, done0) = set_all(t, region, keys.drop_last(), values);
    let ok = set_one(mid, r0, keys.last(), values[keys.len() - 1]).2;
    assert(done0.push(ok).drop_last() =~= done0);
}

/// A batch set stores the values one after the other and gives one result for each. A
/// key whose last value in the batch was accepted is stored with that value; keys that
/// the batch does not name keep theirs, and so does a key that the batch names once and
/// refuses; every extent that was live reads as before. A value is refused only for a
/// reason that holds when its turn comes.
pub proof fn law_batch_set(
    t: Seq<Slot>,
    region: RegionState,
    keys: Seq<HashedKey>,
    values: Seq<Seq<u8>>,
)
    requires
        cuckoo_laws::valid(t),
        extent::sound(region),
        keys.len() <= values.len(),
        forall|i: int| 0 <= i < keys.len() ==> (#[trigger] values[i]).len() <= u32::MAX,
    ensures
        ({
            let (u, r, done) = set_all(t, region, keys, values);
            &&& cuckoo_laws::valid(u)
            &&& extent::sound(r)
            &&& extents_stay(region, r)
            &&& done.len() == keys.len()
            &&& forall|k: cuckoo_laws::Key|
                !in_batch(keys, k) ==> #[trigger] same_entry(
                    cuckoo_laws::contents(t),
                    cuckoo_laws::contents(u),
                    k,
                )
            &&& forall|i: int|
                0 <= i < keys.len() ==> #[trigger] set_entry(t, u, r, keys, values, done, i)
            &&& forall|i: int|
                0 <= i < keys.len() && !#[trigger] done[i] ==> refused_in_turn(
                    t,
                    region,
                    keys,
                    values,
                    i,
                )
        }),
{
    let (u, r, done) = set_all(t, region, keys, values);
    lemma_batch_set_map(t, region, keys, values, u, r, done);
    lemma_batch_set_entries(t, region, keys, values, u, r, done);
    lemma_batch_set_refusals(t, region, keys, values, u, r, done);
}

/// What [`law_batch_set`] says of the keys that the batch does not name.
proof fn lemma_batch_set_map(
    t: Seq<Slot>,
    region: RegionState,
    keys: Seq<HashedKey>,
    values: Seq<Seq<u8>>,
    u: Seq<Slot>,
    r: RegionState,
    done: Seq<bool>,
)
    requires
        cuckoo_laws::valid(t),
        extent::sound(region),
        keys.len() <= values.len(),
        forall|i: int| 0 <= i < keys.len() ==> (#[trigger] values[i]).len() <= u32::MAX,
        set_all(t, region, keys, values) == (u, r, done),
    ensures
        cuckoo_laws::valid(u),
        extent::sound(r),
        extents_stay(region, r),
        done.len() == keys.len(),
        forall|k: cuckoo_laws::Key|
            !in_batch(keys, k) ==> #[trigger] same_entry(
                cuckoo_laws::contents(t),
                cuckoo_laws::contents(u),
                k,
            ),
    decreases keys.len(),
{
    if keys.len() > 0 {
        let n = keys.len() - 1;
        let (mid, r0, done0) = set_all(t, region, keys.drop_last(), values);
        lemma_batch_set_map(t, region, keys.drop_last(), values, mid, r0, done0);
        lemma_batch_set_step(t, region, keys, values);
        lemma_set_elsewhere(mid, r0, keys.last(), values[n], u, r, done.last());
        lemma_extents_stay(region, r0, r);
        lemma_same_entries(
            cuckoo_laws::contents(t),
            cuckoo_laws::contents(mid),
            cuckoo_laws::contents(u),
            keys,
        );
    }
}

/// Extents that stay twice stay.
proof fn lemma_extents_stay(a: RegionState, b: RegionState, c: RegionState)
    requires
        extents_stay(a, b),
        extents_stay(b, c),
    ensures
        extents_stay(a, c),
{
}

/// Keys that neither a batch nor one more key names keep their entries.
proof fn lemma_same_entries(
    before: Map<cuckoo_laws::Key, cuckoo_laws::Value>,
    between: Map<cuckoo_laws::Key, cuckoo_laws::Value>,
    after: Map<cuckoo_laws::Key, cuckoo_laws::Value>,
    keys: Seq<HashedKey>,
)
    requires
        keys.len() > 0,
        forall|k: cuckoo_laws::Key|
            !in_batch(keys.drop_last(), k) ==> #[trigger] same_entry(before, between, k),
        forall|k: cuckoo_laws::Key|
            k != (keys.last().hash, keys.last().digest@) ==> #[trigger] same_entry(
                between,
                after,
                k,
            ),
    ensures
        forall|k: cuckoo_laws::Key|
            !in_batch(keys, k) ==> #[trigger] same_entry(before, after, k),
{
    assert forall|k: cuckoo_laws::Key| !in_batch(keys, k) implies #[trigger] same_entry(
        before,
        after,
        k,
    ) by {
        lemma_in_batch(keys, k);
        assert(same_entry(before, between, k));
        assert(same_entry(between, after, k));
    }
}

/// What [`law_batch_set`] says of the entries of the batch.
proof fn lemma_batch_set_entries(
    t: Seq<Slot>,
    region: RegionState,
    keys: Seq<HashedKey>,
    values: Seq<Seq<u8>>,
    u: Seq<Slot>,
    r: RegionState,
    done: Seq<bool>,
)
    requires
        cuckoo_laws::valid(t),
        extent::sound(region),
        keys.len() <= values.len(),
        forall|i: int| 0 <= i < keys.len() ==> (#[trigger] values[i]).len() <= u32::MAX,
        set_all(t, region, keys, values) == (u, r, done),
    ensures
        forall|i: int|
            0 <= i < keys.len() ==> #[trigger] set_entry(t, u, r, keys, values, done, i),
    decreases keys.len(),
{
    if keys.len() > 0 {
        let n = keys.len() - 1;
        let (mid, r0, done0) = set_all(t, region, keys.drop_last(), values);
        lemma_batch_set_map(t, region, keys.drop_last(), values, mid, r0, done0);
        lemma_batch_set_entries(t, region, keys.drop_last(), values, mid, r0, done0);
        lemma_batch_set_step(t, region, keys, values);
        lemma_set_elsewhere(mid, r0, keys.last(), values[n], u, r, done.last());
        lemma_last_entry(t, mid, u, r, keys, values, done);
        assert forall|i: int| 0 <= i < keys.len() implies #[trigger] set_entry(
            t,
            u,
            r,
            keys,
            values,
            done,
            i,
        ) by {
            if i < n {
                assert(set_entry(t, mid, r0, keys.drop_last(), values, done0, i));
                assert(done[i] == done.drop_last()[i]);
                lemma_entry_stays(t, mid, u, r0, r, keys, values, done0, done, i);
            }
        }
    }
}

/// The last entry of a batch.
proof fn lemma_last_entry(
    t: Seq<Slot>,
    mid: Seq<Slot>,
    u: Seq<Slot>,
    r: RegionState,
    keys: Seq<HashedKey>,
    values: Seq<Seq<u8>>,
    done: Seq<bool>,
)
    requires
        0 < keys.len() == done.len(),
        done.last() ==> stored_as(u, r, keys.last(), values[keys.len() - 1]),
        !done.last() ==> u == mid,
        forall|k: cuckoo_laws::Key|
            !in_batch(keys.drop_last(), k) ==> #[trigger] same_entry(
                cuckoo_laws::contents(t),
                cuckoo_laws::contents(mid),
                k,
            ),
    ensures
        set_entry(t, u, r, keys, values, done, keys.len() - 1),
{
    let n = keys.len() - 1;
    lemma_last_repeated(keys);
    assert(keys[n] == keys.last());
    if repeated(keys, n, 0, n) {
        let j = choose|j: int|
            0 <= j < n && j != n && (#[trigger] keys[j]).hash == keys[n].hash && keys[j].digest@
                == keys[n].digest@;
        assert(repeated(keys, n, 0, keys.len() as int));
    } else {
        assert(same_entry(
            cuckoo_laws::contents(t),
            cuckoo_laws::contents(mid),
            (keys.last().hash, keys.last().digest@),
        ));
    }
}

/// An entry of a batch is not disturbed by one more value for another key.
proof fn lemma_entry_stays(
    t: Seq<Slot>,
    mid: Seq<Slot>,
    u: Seq<Slot>,
    r0: RegionState,
    r: RegionState,
    keys: Seq<HashedKey>,
    values: Seq<Seq<u8>>,
    done0: Seq<bool>,
    done: Seq<bool>,
    i: int,
)
    requires
        0 <= i < keys.len() - 1,
        done[i] == done0[i],
        set_entry(t, mid, r0, keys.drop_last(), values, done0, i),
        extents_stay(r0, r),
        forall|k: cuckoo_laws::Key|
            k != (keys.last().hash, keys.last().digest@) ==> #[trigger] same_entry(
                cuckoo_laws::contents(mid),
                cuckoo_laws::contents(u),
                k,
            ),
    ensures
        set_entry(t, u, r, keys, values, done, i),
{
    let n = keys.len() - 1;
    let k = (keys[i].hash, keys[i].digest@);
    assert(keys.drop_last()[i] == keys[i]);
    assert(keys[n] == keys.last());
    lemma_repeated(keys, i, i + 1, n);
    lemma_repeated(keys, i, 0, n);
    if k != (keys.last().hash, keys.last().digest@) {
        assert(same_entry(cuckoo_laws::contents(mid), cuckoo_laws::contents(u), k));
        if stored_as(mid, r0, keys[i], values[i]) {
            lemma_stored_stays(mid, u, r0, r, keys[i], values[i]);
        }
    }
}

/// What [`law_batch_set`] says of refusals.
proof fn lemma_batch_set_refusals(
    t: Seq<Slot>,
    region: RegionState,
    keys: Seq<HashedKey>,
    values: Seq<Seq<u8>>,
    u: Seq<Slot>,
    r: RegionState,
    done: Seq<bool>,
)
    requires
        cuckoo_laws::valid(t),
        extent::sound(region),
        keys.len() <= values.len(),
        forall|i: int| 0 <= i < keys.len() ==> (#[trigger] values[i]).len() <= u32::MAX,
        set_all(t, region, keys, values) == (u, r, done),
    ensures
        forall|i: int|
            0 <= i < keys.len() && !#[trigger] done[i] ==> refused_in_turn(
                t,
                region,
                keys,
                values,
                i,
            ),
    decreases keys.len(),
{
    if keys.len() > 0 {
        let n = keys.len() - 1;
        let front = keys.drop_last();
        assert(keys.take(n) =~= front);
        let (mid, r0, done0) = set_all(t, region, front, values);
        lemma_batch_set_map(t, region, front, values, mid, r0, done0);
        lemma_batch_set_refusals(t, region, front, values, mid, r0, done0);
        lemma_batch_set_step(t, region, keys, values);
        lemma_set_elsewhere(mid, r0, keys.last(), values[n], u, r, done.last());
        assert forall|i: int| 0 <= i < keys.len() && !#[trigger] done[i] implies refused_in_turn(
            t,
            region,
            keys,
            values,
            i,
        ) by {
            if i < n {
                assert(done[i] == done0[i] && front[i] == keys[i]);
                assert(front.take(i) =~= keys.take(i));
                assert(refused_in_turn(t, region, front, values, i));
            }
        }
    }
}

/// There is a reason to refuse value `i` of a batch when its turn comes.
pub open spec fn refused_in_turn(
    t: Seq<Slot>,
    region: RegionState,
    keys: Seq<HashedKey>,
    values: Seq<Seq<u8>>,
    i: int,
) -> bool {
    let (ti, ri, _) = set_all(t, region, keys.take(i), values);
    refusable(ti, ri, keys[i], values[i])
}

/// Both maps have the key with the same value, or neither has it.
pub open spec fn same_entry(
    a: Map<cuckoo_laws::Key, cuckoo_laws::Value>,
    b: Map<cuckoo_laws::Key, cuckoo_laws::Value>,
    k: cuckoo_laws::Key,
) -> bool {
    (a.dom().contains(k) <==> b.dom().contains(k)) && (a.dom().contains(k) ==> a[k] == b[k])
}

/// A submission files exactly one completion behind the others: it carries the id that
/// was next and the results of the keys, and reports success. What is stored stays as it
/// is.
pub proof fn law_completion_carries_results(c: ConnectorView, per_key: Seq<bool>)
    ensures
        ({
            let d = completed(c, per_key);
            let n = c.completions.len() as int;
            &&& d.completions.len() == n + 1
            &&& forall|i: int| 0 <= i < n ==> #[trigger] d.completions[i] == c.completions[i]
            &&& d.completions[n].future_id == c.next_id
            &&& d.completions[n].ok
            &&& d.completions[n].error.len() == 0
            &&& d.completions[n].per_key == Some(per_key)
            &&& d.table == c.table
            &&& d.region == c.region
            &&& d.closed == c.closed
        }),
{
}

/// A batch has a hashed key for each of its strings: the hash of the string's UTF-8
/// bytes under the seed 0, and as its digest that hash and the one under the seed 1, the
/// lowest byte first. The same string gives the same key in every batch.
pub proof fn law_keys_are_hashed(
    hashed: Seq<HashedKey>,
    keys: Seq<String>,
    others: Seq<HashedKey>,
    names: Seq<String>,
    i: int,
    j: int,
)
    requires
        hashes_of(hashed, keys),
        hashes_of(others, names),
        0 <= i < keys.len(),
        0 <= j < names.len(),
    ensures
        hashed.len() == keys.len(),
        ({
            let bytes = vstd::utf8::encode_utf8(keys[i]@);
            let d = hashed[i].digest@;
            &&& hashed[i].hash == hash::xxh64_of(bytes, 0)
            &&& hashed[i].hash == crate::codec::le_u64_at(d, 0)
            &&& hash::xxh64_of(bytes, 1) == crate::codec::le_u64_at(d, 8)
        }),
        keys[i]@ == names[j]@ ==> hashed[i].hash == others[j].hash && hashed[i].digest@
            == others[j].digest@,
{
    let bytes = vstd::utf8::encode_utf8(keys[i]@);
    let (a, b) = (hash::xxh64_of(bytes, 0), hash::xxh64_of(bytes, 1));
    assert(vstd::utf8::encode_utf8(names[j]@) == vstd::utf8::encode_utf8(names[j]@));
    assert(hashed[i].digest@ == tenant::digest_of(a, b));
    tenant::law_digest_layout(a, b);
    let d = hashed[i].digest@;
    crate::codec::lemma_le_value_8(d.subrange(0, 8));
    crate::codec::lemma_le_value_8(d.subrange(8, 16));
}

/// A batch write goes as far as both the keys and the values go, and stores the bytes
/// of each value.
pub proof fn law_batch_pairs(keys: nat, values: Seq<Vec<u8>>, i: int)
    requires
        0 <= i < values.len(),
    ensures
        shorter(keys, values.len()) <= keys,
        shorter(keys, values.len()) <= values.len(),
        shorter(keys, values.len()) == keys || shorter(keys, values.len()) == values.len(),
        value_bytes(values).len() == values.len(),
        value_bytes(values)[i] == values[i]@,
{
}

} // verus!
