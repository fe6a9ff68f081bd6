//! Laws of the remote write path: what an insert does to a memory that holds a
//! table, and what a remote read finds afterwards.

use vstd::prelude::*;

use crate::client::read;
use crate::client::read::Found;
use crate::client::remote_read;
use crate::client::remote_read::GetView;
use crate::client::remote_write;
use crate::client::remote_write::{InsertStageView, InsertStepView, InsertView};
use crate::client::write::WriteResult;
use crate::codec;
use crate::engine::cuckoo;
use crate::engine::cuckoo_laws;
use crate::engine::extent;
use crate::engine::layout;
use crate::engine::layout::Slot;
use crate::engine::remote_extent;
use crate::error::ErrorView;
use crate::transport;
use crate::transport::{OpView, ReplyView};

verus! {

/// An insert run on a memory that nobody else touches, for at most `fuel`
/// operations: the memory afterwards, and the result once there is one.
pub open spec fn run_insert(v: InsertView, mem: Seq<u8>, fuel: nat) -> (
    Seq<u8>,
    Option<Result<WriteResult, ErrorView>>,
)
    decreases fuel,
{
    if fuel == 0 {
        (mem, None)
    } else {
        let (m, reply) = transport::perform(mem, remote_write::insert_op(v));
        match remote_write::insert_step(v, reply) {
            (next, InsertStepView::Issue(_)) => run_insert(next, m, (fuel - 1) as nat),
            (_, InsertStepView::Finished(r)) => (m, Some(r)),
        }
    }
}

/// A run that has ended stays as it ended.
proof fn lemma_run_longer(v: InsertView, mem: Seq<u8>, fuel: nat, more: nat)
    requires
        run_insert(v, mem, fuel).1 is Some,
    ensures
        run_insert(v, mem, fuel + more) == run_insert(v, mem, fuel),
    decreases fuel,
{
    let (m, reply) = transport::perform(mem, remote_write::insert_op(v));
    match remote_write::insert_step(v, reply) {
        (next, InsertStepView::Issue(_)) => {
            lemma_run_longer(next, m, (fuel - 1) as nat, more);
        },
        (_, InsertStepView::Finished(r)) => {},
    }
}

/// An insert that is allocating goes through the allocation and then on to the
/// claim.
proof fn lemma_run_alloc(v: InsertView, mem: Seq<u8>, fuel: nat, rest: nat)
    requires
        v.stage is Allocating,
        remote_extent::run_alloc(v.stage->alloc, mem, fuel).1 matches Some(Ok(_)),
        ({
            let (m, r) = remote_extent::run_alloc(v.stage->alloc, mem, fuel);
            run_insert(claiming(v, r->0->Ok_0), m, rest).1 is Some
        }),
    ensures
        ({
            let (m, r) = remote_extent::run_alloc(v.stage->alloc, mem, fuel);
            run_insert(v, mem, fuel + rest) == run_insert(claiming(v, r->0->Ok_0), m, rest)
        }),
    decreases fuel,
{
    let alloc = v.stage->alloc;
    let (m, reply) = transport::perform(mem, remote_extent::alloc_op(alloc));
    match remote_extent::alloc_step(alloc, reply) {
        (next, remote_extent::AllocStepView::Issue(_)) => {
            let w = InsertView {
                stage: InsertStageView::Allocating { seen: v.stage->Allocating_seen, alloc: next },
                ..v
            };
            assert(remote_write::insert_step(v, reply).0 == w);
            lemma_run_alloc(w, m, (fuel - 1) as nat, rest);
        },
        (_, remote_extent::AllocStepView::Finished(r)) => {
            let w = claiming(v, r->Ok_0);
            lemma_run_longer(w, m, rest, (fuel - 1) as nat);
        },
    }
}

/// The insert at the point where its extent at `offset` is complete.
pub open spec fn claiming(v: InsertView, offset: u64) -> InsertView {
    InsertView {
        stage: InsertStageView::CasBucket {
            seen: v.stage->Allocating_seen,
            entry: remote_write::extent_entry(v, offset),
        },
        ..v
    }
}

/// The slot that an insert takes: the first candidate that is vacant and unlocked.
pub open spec fn taken_slot(t: Seq<Slot>, hash: u64, n: int) -> Option<int> {
    if cuckoo::claimable(t[cuckoo::h1_of(hash, n)]) {
        Some(cuckoo::h1_of(hash, n))
    } else if cuckoo::claimable(t[cuckoo::h2_of(hash, n)]) {
        Some(cuckoo::h2_of(hash, n))
    } else {
        None
    }
}

/// The bump offset in the memory.
pub open spec fn bump_in(v: InsertView, mem: Seq<u8>) -> u64 {
    codec::le_u64_at(mem, v.list_vaddr as int) as u64
}

/// The entry that an insert writes.
pub open spec fn entry_of(v: InsertView, mem: Seq<u8>) -> Slot {
    if v.extent {
        remote_write::extent_entry(v, bump_in(v, mem))
    } else {
        remote_write::inline_entry(v)
    }
}

/// The memory after the extent of the value, if it has one, is written.
pub open spec fn stored(v: InsertView, mem: Seq<u8>) -> Seq<u8> {
    if v.extent {
        remote_extent::allocated_memory(remote_write::first_alloc(v), mem, bump_in(v, mem))
    } else {
        mem
    }
}

/// There is room for the extent of the value behind the bump word, clear of the
/// table.
pub open spec fn room_for_extent(v: InsertView, mem: Seq<u8>) -> bool {
    let base = codec::le_u64_at(mem, v.list_vaddr as int);
    let need = extent::extent_footprint(v.value.len() as int);
    &&& v.list_vaddr + 8 <= mem.len()
    &&& base >= 8
    &&& v.list_vaddr + base + need <= mem.len()
    &&& extent::apart(
        v.table_vaddr as int,
        64 * v.bucket_count,
        v.list_vaddr as int,
        base + need,
    )
}

/// The bytes of the table are the same in both memories.
proof fn lemma_table_kept(a: Seq<u8>, b: Seq<u8>, vaddr: u64, t: Seq<Slot>)
    requires
        remote_read::table_at(a, vaddr, t),
        a.len() == b.len(),
        forall|i: int| vaddr <= i < vaddr + 64 * t.len() ==> a[i] == b[i],
    ensures
        remote_read::table_at(b, vaddr, t),
{
    assert forall|i: int| 0 <= i < t.len() implies b.subrange(
        remote_read::bucket_addr(vaddr, i),
        remote_read::bucket_addr(vaddr, i) + 64,
    ) == layout::bucket_bytes(#[trigger] t[i]) by {
        let at = remote_read::bucket_addr(vaddr, i);
        assert(a.subrange(at, at + 64) == layout::bucket_bytes(t[i]));
        assert(b.subrange(at, at + 64) =~= a.subrange(at, at + 64));
    }
}

/// Writing a slot into the table.
proof fn lemma_table_updated(mem: Seq<u8>, vaddr: u64, t: Seq<Slot>, at: int, s: Slot)
    requires
        remote_read::table_at(mem, vaddr, t),
        0 <= at < t.len(),
        layout::bucket_sized(s),
    ensures
        ({
            let m = codec::splice(mem, remote_read::bucket_addr(vaddr, at), layout::bucket_bytes(s));
            &&& m.len() == mem.len()
            &&& remote_read::table_at(m, vaddr, t.update(at, s))
            &&& forall|i: int|
                0 <= i < mem.len() && !(vaddr <= i < vaddr + 64 * t.len()) ==> m[i] == mem[i]
        }),
{
    let bytes = layout::bucket_bytes(s);
    let addr = remote_read::bucket_addr(vaddr, at);
    let m = codec::splice(mem, addr, bytes);
    let u = t.update(at, s);
    layout::law_slot_reads_back(s);
    assert forall|i: int| 0 <= i < u.len() implies m.subrange(
        remote_read::bucket_addr(vaddr, i),
        remote_read::bucket_addr(vaddr, i) + 64,
    ) == layout::bucket_bytes(#[trigger] u[i]) by {
        let a = remote_read::bucket_addr(vaddr, i);
        if i == at {
            assert(m.subrange(a, a + 64) =~= bytes);
        } else {
            assert(mem.subrange(a, a + 64) == layout::bucket_bytes(t[i]));
            assert(m.subrange(a, a + 64) =~= mem.subrange(a, a + 64));
        }
    }
    assert forall|i: int| 0 <= i < u.len() implies layout::bucket_sized(#[trigger] u[i]) by {
        if i != at {
            assert(u[i] == t[i]);
        }
    }
}

/// The claim and the write of a bucket whose lock word is the one that was seen.
proof fn lemma_claim(v: InsertView, mem: Seq<u8>, t: Seq<Slot>)
    requires
        v.stage is CasBucket,
        remote_read::table_at(mem, v.table_vaddr, t),
        0 <= remote_write::tried_slot(v) < t.len(),
        v.stage->CasBucket_seen == t[remote_write::tried_slot(v)].lock,
        layout::bucket_sized(v.stage->CasBucket_entry),
    ensures
        run_insert(v, mem, 2) == (
            codec::splice(
                mem,
                remote_write::tried_addr(v),
                layout::bucket_bytes(v.stage->CasBucket_entry),
            ),
            Some(
                Ok::<WriteResult, ErrorView>(
                    WriteResult::Inserted { bucket_idx: remote_write::tried_slot(v) as usize },
                ),
            ),
        ),
{
    let at = remote_write::tried_slot(v);
    let addr = remote_write::tried_addr(v);
    let entry = v.stage->CasBucket_entry;
    layout::law_slot_reads_back(t[at]);
    layout::law_slot_reads_back(entry);
    assert(mem.subrange(addr, addr + 64) == layout::bucket_bytes(t[at]));
    assert(mem.subrange(addr, addr + 8) =~= mem.subrange(addr, addr + 64).subrange(0, 8));
    let m1 = codec::splice(mem, addr, codec::le_digits(entry.lock as nat, 8));
    reveal_with_fuel(codec::byte_range, 9);
    codec::lemma_decode_encode(entry.lock as nat, 8);
    let bytes = layout::bucket_bytes(entry);
    assert(codec::splice(m1, addr, bytes) =~= codec::splice(mem, addr, bytes));
    reveal_with_fuel(run_insert, 3);
}

/// One candidate: an insert that reads a vacant, unlocked bucket fills it.
proof fn lemma_attempt(v: InsertView, mem: Seq<u8>, t: Seq<Slot>)
    requires
        v.stage is ReadBucket,
        v.digest.len() == 16,
        t.len() == v.bucket_count,
        remote_read::table_at(mem, v.table_vaddr, t),
        0 <= remote_write::tried_slot(v) < t.len(),
        cuckoo::claimable(t[remote_write::tried_slot(v)]),
        v.extent ==> room_for_extent(v, mem),
    ensures
        ({
            let (m, r) = run_insert(v, mem, 8);
            &&& r == Some(
                Ok::<WriteResult, ErrorView>(
                    WriteResult::Inserted { bucket_idx: remote_write::tried_slot(v) as usize },
                ),
            )
            &&& m == codec::splice(
                stored(v, mem),
                remote_write::tried_addr(v),
                layout::bucket_bytes(entry_of(v, mem)),
            )
            &&& remote_read::table_at(stored(v, mem), v.table_vaddr, t)
            &&& layout::bucket_sized(entry_of(v, mem))
        }),
{
    let at = remote_write::tried_slot(v);
    let addr = remote_write::tried_addr(v);
    layout::law_slot_reads_back(t[at]);
    assert(mem.subrange(addr, addr + 64) == layout::bucket_bytes(t[at]));
    let (_, reply) = transport::perform(mem, remote_write::insert_op(v));
    let (w, _) = remote_write::insert_step(v, reply);
    cuckoo_laws::law_extent_body_reads_back(bump_in(v, mem), v.value.len() as u64);
    if v.extent {
        let a = remote_write::first_alloc(v);
        let base = bump_in(v, mem);
        let need = extent::extent_footprint(v.value.len() as int);
        codec::lemma_le_value_bound(mem.subrange(v.list_vaddr as int, v.list_vaddr + 8));
        reveal_with_fuel(codec::byte_range, 9);
        remote_extent::law_remote_allocation(a, mem);
        let m1 = stored(v, mem);
        lemma_allocated_elsewhere(a, mem, base);
        lemma_table_kept(mem, m1, v.table_vaddr, t);
        let c = claiming(w, base);
        lemma_claim(c, m1, t);
        lemma_run_alloc(w, mem, 5, 2);
        assert(run_insert(v, mem, 8) == run_insert(w, mem, 7));
    } else {
        lemma_claim(w, mem, t);
        lemma_run_longer(w, mem, 2, 5);
        assert(run_insert(v, mem, 8) == run_insert(w, mem, 7));
    }
}

/// An allocation touches the bump word and the extent, and nothing else; the
/// payload stands behind the header.
proof fn lemma_allocated_elsewhere(a: remote_extent::AllocView, mem: Seq<u8>, base: u64)
    requires
        a.vaddr + 8 <= mem.len(),
        base >= 8,
        a.vaddr + base + extent::extent_footprint(a.data.len() as int) <= mem.len(),
        mem.len() <= u64::MAX,
    ensures
        ({
            let m = remote_extent::allocated_memory(a, mem, base);
            &&& m.len() == mem.len()
            &&& forall|i: int|
                0 <= i < mem.len() && (i < a.vaddr || i >= a.vaddr + base
                    + extent::extent_footprint(a.data.len() as int)) ==> m[i] == mem[i]
            &&& m.subrange(a.vaddr + base + 32, a.vaddr + base + 32 + a.data.len()) == a.data
        }),
{
    let need = extent::extent_footprint(a.data.len() as int);
    let ck = crate::hash::xxh64_of(a.data, 0) as nat;
    let n = a.data.len() % 0x1_0000_0000;
    reveal_with_fuel(codec::byte_range, 9);
    codec::lemma_decode_encode((base + need) as nat, 8);
    codec::lemma_decode_encode(layout::EXTENT_MAGIC as nat, 4);
    codec::lemma_decode_encode(n, 4);
    codec::lemma_decode_encode(0, 8);
    codec::lemma_decode_encode(ck, 8);
    extent::lemma_rounded_up(32 + a.data.len() as int, 8);
    assert(extent::live_header(n, ck).len() == 32);
    let m = remote_extent::allocated_memory(a, mem, base);
    assert(m.subrange(a.vaddr + base + 32, a.vaddr + base + 32 + a.data.len()) =~= a.data);
}

/// A remote insert that is not disturbed takes at most nine operations. It fills
/// the first candidate slot that is vacant and unlocked and leaves every other
/// slot of the table alone; when there is no such slot, it ends with `TableFull`
/// and has changed nothing.
pub proof fn law_remote_insert(v: InsertView, mem: Seq<u8>, t: Seq<Slot>)
    requires
        v.stage is ReadBucket,
        !v.second,
        v.digest.len() == 16,
        cuckoo::two_choice(v.bucket_count as int),
        t.len() == v.bucket_count,
        remote_read::table_at(mem, v.table_vaddr, t),
        v.extent ==> room_for_extent(v, mem),
    ensures
        ({
            let (m, r) = run_insert(v, mem, 9);
            match taken_slot(t, v.hash, v.bucket_count as int) {
                Some(at) => {
                    &&& r == Some(
                        Ok::<WriteResult, ErrorView>(
                            WriteResult::Inserted { bucket_idx: at as usize },
                        ),
                    )
                    &&& m == codec::splice(
                        stored(v, mem),
                        remote_read::bucket_addr(v.table_vaddr, at),
                        layout::bucket_bytes(entry_of(v, mem)),
                    )
                    &&& remote_read::table_at(
                        m,
                        v.table_vaddr,
                        t.update(at, entry_of(v, mem)),
                    )
                },
                None => r == Some(Ok::<WriteResult, ErrorView>(WriteResult::TableFull)) && m == mem,
            }
        }),
{
    let n = v.bucket_count as int;
    let (a, b) = (cuckoo::h1_of(v.hash, n), cuckoo::h2_of(v.hash, n));
    cuckoo::lemma_candidates(v.hash, n);
    let w = InsertView { second: true, ..v };
    layout::law_slot_reads_back(t[a]);
    layout::law_slot_reads_back(t[b]);
    let addr_a = remote_read::bucket_addr(v.table_vaddr, a);
    let addr_b = remote_read::bucket_addr(v.table_vaddr, b);
    assert(mem.subrange(addr_a, addr_a + 64) == layout::bucket_bytes(t[a]));
    assert(mem.subrange(addr_b, addr_b + 64) == layout::bucket_bytes(t[b]));
    if cuckoo::claimable(t[a]) {
        lemma_attempt(v, mem, t);
        lemma_run_longer(v, mem, 8, 1);
        lemma_table_updated(stored(v, mem), v.table_vaddr, t, a, entry_of(v, mem));
    } else {
        assert(run_insert(v, mem, 9) == run_insert(w, mem, 8));
        if cuckoo::claimable(t[b]) {
            lemma_attempt(w, mem, t);
            assert(remote_write::first_alloc(w) == remote_write::first_alloc(v));
            lemma_table_updated(stored(v, mem), v.table_vaddr, t, b, entry_of(v, mem));
        }
    }
}

/// A remote read gives back what a remote insert of a new key stored: an inline
/// value as the 32-byte body that starts with it, and a value in an extent as it
/// was, when both count offsets from the same address.
pub proof fn law_remote_insert_then_get(v: InsertView, g: GetView, mem: Seq<u8>, t: Seq<Slot>)
    requires
        v.stage is ReadBucket,
        !v.second,
        v.digest.len() == 16,
        v.hash != 0,
        cuckoo::two_choice(v.bucket_count as int),
        t.len() == v.bucket_count,
        remote_read::table_at(mem, v.table_vaddr, t),
        v.extent ==> room_for_extent(v, mem) && g.objects_vaddr == v.list_vaddr,
        cuckoo::find_in(t, v.hash, v.digest) is None,
        taken_slot(t, v.hash, v.bucket_count as int) is Some,
        g.stage is First,
        g.hash == v.hash,
        g.digest == v.digest,
        g.table_vaddr == v.table_vaddr,
        g.bucket_count == v.bucket_count,
    ensures
        remote_read::run_get(g, run_insert(v, mem, 9).0, 3) == Some(
            Ok::<Option<Found>, ErrorView>(
                Some(
                    if v.extent {
                        (v.value, true)
                    } else {
                        (cuckoo::packed(v.value, false), false)
                    },
                ),
            ),
        ),
{
    let n = v.bucket_count as int;
    let (a, b) = (cuckoo::h1_of(v.hash, n), cuckoo::h2_of(v.hash, n));
    cuckoo::lemma_candidates(v.hash, n);
    let at = taken_slot(t, v.hash, n)->0;
    let entry = entry_of(v, mem);
    let m = run_insert(v, mem, 9).0;
    let u = t.update(at, entry);
    law_remote_insert(v, mem, t);
    layout::lemma_fresh_lock();
    assert(read::hit(entry, v.hash, v.digest));
    assert(remote_read::hit_slot(u, v.hash, v.digest, n) == Some(entry));
    if v.extent {
        let base = bump_in(v, mem);
        codec::lemma_le_value_bound(mem.subrange(v.list_vaddr as int, v.list_vaddr + 8));
        reveal_with_fuel(codec::byte_range, 9);
        cuckoo_laws::law_extent_body_reads_back(base, v.value.len() as u64);
        let alloc = remote_write::first_alloc(v);
        lemma_allocated_elsewhere(alloc, mem, base);
        lemma_table_kept(mem, stored(v, mem), v.table_vaddr, t);
        lemma_table_updated(stored(v, mem), v.table_vaddr, t, at, entry);
        extent::lemma_rounded_up(32 + v.value.len() as int, 8);
        let from = v.list_vaddr + base + 32;
        assert(m.subrange(from, from + v.value.len()) =~= stored(v, mem).subrange(
            from,
            from + v.value.len(),
        ));
    }
    remote_read::law_remote_get(g, m, u);
}

/// What an insert touches: the buckets of the table with the key of the table, and the
/// free list region with the key of that region.
pub proof fn law_insert_uses_its_keys(v: InsertView)
    requires
        v.stage matches remote_write::InsertStageView::Allocating { alloc, .. } ==> alloc.rkey
            == v.list_rkey,
    ensures
        ({
            let rkey = match remote_write::insert_op(v) {
                OpView::Read { rkey, .. } => rkey,
                OpView::Write { rkey, .. } => rkey,
                OpView::Cas { rkey, .. } => rkey,
            };
            rkey == if v.stage is Allocating {
                v.list_rkey
            } else {
                v.table_rkey
            }
        }),
{
}

/// A bucket that is locked, or that holds a key, is left alone: the insert reads the
/// second candidate instead, and after that one reports a full table.
pub proof fn law_taken_bucket_is_left_alone(v: InsertView, bytes: Seq<u8>)
    requires
        v.stage is ReadBucket,
        ({
            let s = layout::slot_of(bytes);
            layout::word_locked(s.lock) || (s.hash != 0 && !layout::word_tombstone(s.lock))
        }),
    ensures
        ({
            let (next, step) = remote_write::insert_step(v, ReplyView::Data(bytes));
            left_alone(v, next, step)
        }),
{
}

/// The insert gives the tried bucket up: from the first it goes on to read the second, and
/// at the second it reports a full table.
pub open spec fn left_alone(v: InsertView, next: InsertView, step: InsertStepView) -> bool {
    if v.second {
        step == InsertStepView::Finished(Ok::<WriteResult, ErrorView>(WriteResult::TableFull))
    } else {
        &&& next.second
        &&& next.stage is ReadBucket
        &&& step == InsertStepView::Issue(
            OpView::Read {
                addr: (v.table_vaddr + 64 * cuckoo::h2_of(v.hash, v.bucket_count as int)) as u64,
                rkey: v.table_rkey,
                len: 64,
            },
        )
    }
}

/// Whoever loses the race for a bucket does not write it: the insert goes on as if the
/// bucket were taken. Whoever wins it writes the whole entry there.
pub proof fn law_race_for_a_bucket(v: InsertView)
    requires
        v.stage is CasBucket,
    ensures
        ({
            let (next, step) = remote_write::insert_step(v, ReplyView::Swapped(false));
            left_alone(v, next, step)
        }),
        ({
            let (next, step) = remote_write::insert_step(v, ReplyView::Swapped(true));
            step == InsertStepView::Issue(
                OpView::Write {
                    addr: remote_write::tried_addr(v) as u64,
                    rkey: v.table_rkey,
                    bytes: layout::bucket_bytes(v.stage->CasBucket_entry),
                },
            )
        }),
{
}

/// A free bucket is claimed by a compare-and-swap against the lock word that was read, for
/// an inline value at once. The entry has the key, the value and the mode, unlocked.
pub proof fn law_free_bucket_is_claimed(v: InsertView, bytes: Seq<u8>)
    requires
        v.stage is ReadBucket,
        !v.extent,
        ({
            let s = layout::slot_of(bytes);
            !layout::word_locked(s.lock) && (s.hash == 0 || layout::word_tombstone(s.lock))
        }),
    ensures
        ({
            let (next, step) = remote_write::insert_step(v, ReplyView::Data(bytes));
            let entry = next.stage->CasBucket_entry;
            &&& next.stage is CasBucket
            &&& entry.hash == v.hash
            &&& entry.digest == v.digest
            &&& entry.body == cuckoo::packed(v.value, false)
            &&& !layout::word_extent(entry.lock)
            &&& !layout::word_locked(entry.lock)
            &&& !layout::word_tombstone(entry.lock)
            &&& step == InsertStepView::Issue(
                OpView::Cas {
                    addr: remote_write::tried_addr(v) as u64,
                    rkey: v.table_rkey,
                    compare: layout::slot_of(bytes).lock,
                    swap: entry.lock,
                },
            )
        }),
{
    layout::lemma_fresh_lock();
}

/// A failed operation ends an insert with its error, and so does a lost race for the bump
/// offset; an insert that ended so has claimed no bucket.
pub proof fn law_insert_failures(v: InsertView, e: ErrorView)
    ensures
        remote_write::insert_step(v, ReplyView::Failed(e)).1 == InsertStepView::Finished(
            Err::<WriteResult, ErrorView>(e),
        ),
        v.stage is Allocating && v.stage->alloc.stage is CasBump ==> remote_write::insert_step(
            v,
            ReplyView::Swapped(false),
        ).1 == InsertStepView::Finished(Err::<WriteResult, ErrorView>(ErrorView::CasFailed)),
{
}

} // verus!
