//! Laws of the Cuckoo hash table: the slots as a map from keys to values.

use vstd::prelude::*;

use crate::codec;
use crate::engine::cuckoo;
use crate::engine::layout;
use crate::engine::layout::Slot;

verus! {

/// A key of the table: hash and digest.
pub type Key = (u64, Seq<u8>);

/// A value of the table: body, and whether the entry is in Extent mode.
pub type Value = (Seq<u8>, bool);

/// The key in a slot.
pub open spec fn key_of(s: Slot) -> Key {
    (s.hash, s.digest)
}

/// The value in a slot.
pub open spec fn value_of(s: Slot) -> Value {
    (s.body, layout::word_extent(s.lock))
}

/// Every live entry sits in one of the two candidate slots of its key.
pub open spec fn placed(t: Seq<Slot>) -> bool {
    forall|i: int|
        0 <= i < t.len() && !layout::vacant(#[trigger] t[i]) ==> i == cuckoo::h1_of(
            t[i].hash,
            t.len() as int,
        ) || i == cuckoo::h2_of(t[i].hash, t.len() as int)
}

/// No key has two live entries.
pub open spec fn unique(t: Seq<Slot>) -> bool {
    forall|i: int, j: int|
        0 <= i < t.len() && 0 <= j < t.len() && i != j && !layout::vacant(#[trigger] t[i])
            && !layout::vacant(#[trigger] t[j]) ==> key_of(t[i]) != key_of(t[j])
}

/// The slots represent a map.
pub open spec fn valid(t: Seq<Slot>) -> bool {
    &&& cuckoo::two_choice(t.len() as int)
    &&& placed(t)
    &&& unique(t)
}

/// The map that the slots represent: what a lookup finds for each key.
pub open spec fn contents(t: Seq<Slot>) -> Map<Key, Value> {
    Map::new(
        |k: Key| k.0 != 0 && cuckoo::find_in(t, k.0, k.1) is Some,
        |k: Key| value_of(t[cuckoo::find_in(t, k.0, k.1)->0]),
    )
}

/// A lookup finds a key in a valid table exactly when some slot holds it, and
/// that slot is the one it finds: two probes are enough.
pub proof fn law_two_probes(t: Seq<Slot>, k: Key)
    requires
        valid(t),
        k.0 != 0,
    ensures
        cuckoo::find_in(t, k.0, k.1) matches Some(i) ==> 0 <= i < t.len() && layout::holds(
            t[i],
            k.0,
            k.1,
        ),
        forall|i: int|
            0 <= i < t.len() && layout::holds(#[trigger] t[i], k.0, k.1) ==> cuckoo::find_in(
                t,
                k.0,
                k.1,
            ) == Some(i),
{
    cuckoo::lemma_candidates(k.0, t.len() as int);
}

/// The fast lookups, which skip locked slots, find only what an ordinary lookup
/// finds: a key that the table does not hold, deleted ones among them, is not found.
/// Where the candidate slots of the key are unlocked, they find the same slot.
pub proof fn law_fast_lookup(t: Seq<Slot>, k: Key)
    requires
        cuckoo::two_choice(t.len() as int),
    ensures
        cuckoo::find_in(t, k.0, k.1) is None ==> cuckoo::find_unlocked(t, k.0, k.1) is None,
        ({
            let (a, b) = (cuckoo::h1_of(k.0, t.len() as int), cuckoo::h2_of(k.0, t.len() as int));
            !layout::word_locked(t[a].lock) && !layout::word_locked(t[b].lock)
                ==> cuckoo::find_unlocked(t, k.0, k.1) == cuckoo::find_in(t, k.0, k.1)
        }),
{
    cuckoo::lemma_candidates(k.0, t.len() as int);
    vstd::arithmetic::div_mod::lemma_small_mod(
        cuckoo::h2_of(k.0, t.len() as int) as nat,
        t.len(),
    );
}

/// A table without live entries represents the empty map.
pub proof fn law_empty_table(t: Seq<Slot>)
    requires
        cuckoo::two_choice(t.len() as int),
        forall|i: int| 0 <= i < t.len() ==> layout::vacant(#[trigger] t[i]),
    ensures
        valid(t),
        contents(t) == Map::<Key, Value>::empty(),
{
    assert forall|k: Key| !contents(t).dom().contains(k) by {
        if k.0 != 0 {
            law_two_probes(t, k);
        }
    }
    assert(contents(t) =~= Map::<Key, Value>::empty());
}

/// Writing a live entry over slot `at`: the entry that was there leaves the map
/// and the new one enters it.
pub proof fn lemma_put(t: Seq<Slot>, at: int, s: Slot)
    requires
        valid(t),
        0 <= at < t.len(),
        !layout::vacant(s),
        at == cuckoo::h1_of(s.hash, t.len() as int) || at == cuckoo::h2_of(s.hash, t.len() as int),
        forall|i: int|
            0 <= i < t.len() && i != at && !layout::vacant(#[trigger] t[i]) ==> key_of(t[i])
                != key_of(s),
    ensures
        valid(t.update(at, s)),
        contents(t.update(at, s)) == (if layout::vacant(t[at]) {
            contents(t)
        } else {
            contents(t).remove(key_of(t[at]))
        }).insert(key_of(s), value_of(s)),
{
    let u = t.update(at, s);
    assert(placed(u)) by {
        assert forall|i: int| 0 <= i < u.len() && !layout::vacant(#[trigger] u[i]) implies i
            == cuckoo::h1_of(u[i].hash, u.len() as int) || i == cuckoo::h2_of(
            u[i].hash,
            u.len() as int,
        ) by {
            if i != at {
                assert(u[i] == t[i]);
            }
        }
    }
    assert(unique(u)) by {
        assert forall|i: int, j: int|
            0 <= i < u.len() && 0 <= j < u.len() && i != j && !layout::vacant(#[trigger] u[i])
                && !layout::vacant(#[trigger] u[j]) implies key_of(u[i]) != key_of(u[j]) by {
            if i != at {
                assert(u[i] == t[i]);
            }
            if j != at {
                assert(u[j] == t[j]);
            }
        }
    }
    let base = if layout::vacant(t[at]) {
        contents(t)
    } else {
        contents(t).remove(key_of(t[at]))
    };
    let want = base.insert(key_of(s), value_of(s));
    assert forall|k: Key|
        contents(u).dom().contains(k) == want.dom().contains(k) && (contents(u).dom().contains(k)
            ==> contents(u)[k] == want[k]) by {
        if k.0 != 0 {
            law_two_probes(t, k);
            law_two_probes(u, k);
            if k == key_of(s) {
                assert(layout::holds(u[at], k.0, k.1));
            } else {
                if cuckoo::find_in(t, k.0, k.1) is Some {
                    let i = cuckoo::find_in(t, k.0, k.1)->0;
                    if i != at {
                        assert(u[i] == t[i]);
                    }
                }
                if cuckoo::find_in(u, k.0, k.1) is Some {
                    let i = cuckoo::find_in(u, k.0, k.1)->0;
                    assert(i != at);
                    assert(u[i] == t[i]);
                }
            }
        }
    }
    assert(contents(u) =~= want);
}

/// Eviction from slot `at` keeps the table valid, and adds the entry in hand to the
/// map.
proof fn lemma_kick(t: Seq<Slot>, at: int, hand: Slot, fuel: nat)
    requires
        valid(t),
        0 <= at < t.len(),
        !layout::vacant(t[at]),
        !layout::vacant(hand),
        at == cuckoo::h1_of(hand.hash, t.len() as int) || at == cuckoo::h2_of(
            hand.hash,
            t.len() as int,
        ),
        forall|i: int|
            0 <= i < t.len() && !layout::vacant(#[trigger] t[i]) ==> key_of(t[i]) != key_of(hand),
    ensures
        ({
            let grown = contents(t).insert(key_of(hand), value_of(hand));
            cuckoo::kick_in(t, at, hand, fuel) matches Some(u) ==> u.len() == t.len() && valid(u)
                && contents(u) == grown
        }),
    decreases fuel,
{
    let grown = contents(t).insert(key_of(hand), value_of(hand));
    if fuel > 0 {
        let n = t.len() as int;
        let victim = cuckoo::refreshed(t[at]);
        let swapped = t.update(at, hand);
        let alt = cuckoo::alternate_of(victim.hash, at, n);
        cuckoo::lemma_candidates(victim.hash, n);
        layout::lemma_fresh_lock();
        assert(key_of(victim) == key_of(t[at]) && value_of(victim) == value_of(t[at]));
        lemma_put(t, at, hand);
        law_two_probes(t, key_of(victim));
        assert(layout::holds(t[at], victim.hash, victim.digest));
        assert(contents(t).dom().contains(key_of(victim)));
        assert(contents(t)[key_of(victim)] == value_of(victim));
        assert forall|i: int| 0 <= i < n && !layout::vacant(#[trigger] swapped[i]) implies key_of(
            swapped[i],
        ) != key_of(victim) by {
            if i != at {
                assert(swapped[i] == t[i]);
            }
        }
        let regrown = contents(swapped).insert(key_of(victim), value_of(victim));
        assert(regrown =~= grown);
        if layout::vacant(swapped[alt]) {
            lemma_put(swapped, alt, victim);
        } else {
            lemma_kick(swapped, alt, victim, (fuel - 1) as nat);
        }
    }
}

/// Insertion keeps a table valid. When it succeeds, the table represents the old
/// map with the key bound to the new value, and no other entry changes. It fails
/// only for a new key both of whose candidate slots are taken, and then the table
/// and its map are as they were.
pub proof fn law_insert(t: Seq<Slot>, new: Slot, max_kick: nat)
    requires
        valid(t),
        !layout::vacant(new),
    ensures
        ({
            let (u, done) = cuckoo::insert_in(t, new, max_kick);
            let n = t.len() as int;
            &&& u.len() == t.len()
            &&& valid(u)
            &&& done ==> contents(u) == contents(t).insert(key_of(new), value_of(new))
            &&& !done ==> {
                &&& u == t
                &&& contents(u) == contents(t)
                &&& !contents(t).dom().contains(key_of(new))
                &&& !layout::vacant(t[cuckoo::h1_of(new.hash, n)])
                &&& !layout::vacant(t[cuckoo::h2_of(new.hash, n)])
            }
        }),
{
    let n = t.len() as int;
    cuckoo::lemma_candidates(new.hash, n);
    law_two_probes(t, key_of(new));
    let grown = contents(t).insert(key_of(new), value_of(new));
    match cuckoo::find_in(t, new.hash, new.digest) {
        Some(i) => {
            lemma_put(t, i, new);
            assert(contents(t).remove(key_of(new)).insert(key_of(new), value_of(new)) =~= grown);
        },
        None => {
            assert forall|i: int| 0 <= i < n && !layout::vacant(#[trigger] t[i]) implies key_of(
                t[i],
            ) != key_of(new) by {
                if key_of(t[i]) == key_of(new) {
                    assert(layout::holds(t[i], new.hash, new.digest));
                }
            }
            let (a, b) = (cuckoo::h1_of(new.hash, n), cuckoo::h2_of(new.hash, n));
            if layout::vacant(t[a]) {
                lemma_put(t, a, new);
            } else if layout::vacant(t[b]) {
                lemma_put(t, b, new);
            } else {
                lemma_kick(t, a, new, max_kick);
            }
        },
    }
}

/// A lookup finds what was inserted; after a failed insertion it does not find the
/// new key, and finds every other key where it was.
pub proof fn law_insert_then_find(t: Seq<Slot>, new: Slot, max_kick: nat)
    requires
        valid(t),
        !layout::vacant(new),
    ensures
        ({
            let (u, done) = cuckoo::insert_in(t, new, max_kick);
            if done {
                cuckoo::find_in(u, new.hash, new.digest) matches Some(i) && value_of(u[i])
                    == value_of(new)
            } else {
                &&& cuckoo::find_in(u, new.hash, new.digest) is None
                &&& forall|k: Key| #[trigger]
                    cuckoo::find_in(u, k.0, k.1) == cuckoo::find_in(t, k.0, k.1)
            }
        }),
{
    law_insert(t, new, max_kick);
    let (u, done) = cuckoo::insert_in(t, new, max_kick);
    if done {
        assert(contents(u).dom().contains(key_of(new)));
        assert(contents(u)[key_of(new)] == value_of(new));
    }
}

/// Deletion takes the key out of the map and leaves every other entry alone;
/// afterwards neither an ordinary nor a fast lookup finds the key.
pub proof fn law_delete(t: Seq<Slot>, k: Key)
    requires
        valid(t),
        k.0 != 0,
        cuckoo::find_in(t, k.0, k.1) is Some,
    ensures
        ({
            let i = cuckoo::find_in(t, k.0, k.1)->0;
            let u = t.update(i, cuckoo::tombstoned(t[i]));
            &&& valid(u)
            &&& contents(u) == contents(t).remove(k)
            &&& cuckoo::find_in(u, k.0, k.1) is None
            &&& cuckoo::find_unlocked(u, k.0, k.1) is None
        }),
{
    let i = cuckoo::find_in(t, k.0, k.1)->0;
    let dead = cuckoo::tombstoned(t[i]);
    let u = t.update(i, dead);
    cuckoo::lemma_candidates(k.0, t.len() as int);
    law_two_probes(t, k);
    law_fast_lookup(u, k);
    layout::lemma_lock_word_fields(
        dead.lock,
        layout::word_version(t[i].lock),
        0,
        layout::word_extent(t[i].lock),
        true,
        false,
    );
    assert(layout::vacant(u[i]));
    assert(placed(u)) by {
        assert forall|j: int| 0 <= j < u.len() && !layout::vacant(#[trigger] u[j]) implies j
            == cuckoo::h1_of(u[j].hash, u.len() as int) || j == cuckoo::h2_of(
            u[j].hash,
            u.len() as int,
        ) by {
            assert(u[j] == t[j]);
        }
    }
    assert(unique(u)) by {
        assert forall|j: int, l: int|
            0 <= j < u.len() && 0 <= l < u.len() && j != l && !layout::vacant(#[trigger] u[j])
                && !layout::vacant(#[trigger] u[l]) implies key_of(u[j]) != key_of(u[l]) by {
            assert(u[j] == t[j] && u[l] == t[l]);
        }
    }
    assert forall|m: Key|
        contents(u).dom().contains(m) == contents(t).remove(k).dom().contains(m) && (contents(
            u,
        ).dom().contains(m) ==> contents(u)[m] == contents(t).remove(k)[m]) by {
        if m.0 != 0 {
            law_two_probes(t, m);
            law_two_probes(u, m);
            if cuckoo::find_in(t, m.0, m.1) is Some {
                let j = cuckoo::find_in(t, m.0, m.1)->0;
                if j != i {
                    assert(u[j] == t[j]);
                }
            }
            if cuckoo::find_in(u, m.0, m.1) is Some {
                let j = cuckoo::find_in(u, m.0, m.1)->0;
                assert(j != i);
                assert(u[j] == t[j]);
            }
        }
    }
    assert(contents(u) =~= contents(t).remove(k));
    law_two_probes(u, k);
    assert(!contents(u).dom().contains(k));
}

/// An extent reference survives the table: the body made of an offset and a
/// length reads back as that offset and length.
pub proof fn law_extent_body_reads_back(offset: u64, length: u64)
    ensures
        layout::body_extent_ref(cuckoo::extent_body(offset, length)) == (
            offset as nat,
            length as nat,
        ),
        cuckoo::extent_body(offset, length).len() == 32,
{
    let body = cuckoo::extent_body(offset, length);
    reveal_with_fuel(codec::byte_range, 9);
    codec::lemma_decode_encode(offset as nat, 8);
    codec::lemma_decode_encode(length as nat, 8);
    assert(body.subrange(0, 8) =~= codec::le_digits(offset as nat, 8));
    assert(body.subrange(8, 16) =~= codec::le_digits(length as nat, 8));
}

/// An inline value of at most 32 bytes survives the table: the body starts with
/// it and holds zeros after it.
pub proof fn law_inline_body_reads_back(value: Seq<u8>)
    requires
        value.len() <= 32,
    ensures
        cuckoo::packed(value, false).len() == 32,
        cuckoo::packed(value, false).subrange(0, value.len() as int) == value,
        forall|i: int| value.len() <= i < 32 ==> cuckoo::packed(value, false)[i] == 0,
{
    assert(cuckoo::packed(value, false).subrange(0, value.len() as int) =~= value);
}

/// A lock-free insertion of a key that the table does not hold has the effect of
/// an ordinary one, when it finds a slot.
pub proof fn law_lock_free_insert(t: Seq<Slot>, at: int, new: Slot)
    requires
        valid(t),
        !layout::vacant(new),
        at == cuckoo::h1_of(new.hash, t.len() as int) || at == cuckoo::h2_of(
            new.hash,
            t.len() as int,
        ),
        cuckoo::claimable(t[at]),
        cuckoo::find_in(t, new.hash, new.digest) is None,
    ensures
        valid(t.update(at, new)),
        contents(t.update(at, new)) == contents(t).insert(key_of(new), value_of(new)),
{
    cuckoo::lemma_candidates(new.hash, t.len() as int);
    law_two_probes(t, key_of(new));
    assert forall|i: int| 0 <= i < t.len() && !layout::vacant(#[trigger] t[i]) implies key_of(t[i])
        != key_of(new) by {
        if key_of(t[i]) == key_of(new) {
            assert(layout::holds(t[i], new.hash, new.digest));
        }
    }
    lemma_put(t, at, new);
}

/// A slot takes a new key when it holds none that was not deleted: a slot that was never
/// written, and one whose key was deleted, are free; one that was written with a key is
/// not. A lock-free insertion takes exactly the free slots that nobody has locked.
pub proof fn law_free_slots(s: Slot)
    ensures
        layout::vacant(layout::zero_slot()),
        cuckoo::claimable(layout::zero_slot()),
        layout::vacant(cuckoo::tombstoned(s)),
        cuckoo::claimable(cuckoo::tombstoned(s)),
        layout::vacant(s) <==> s.hash == 0 || s.lock % 4 >= 2,
        cuckoo::claimable(s) <==> layout::vacant(s) && s.lock % 2 == 0,
{
    let dead = cuckoo::tombstoned(s);
    layout::lemma_lock_word_fields(
        dead.lock,
        layout::word_version(s.lock),
        0,
        layout::word_extent(s.lock),
        true,
        false,
    );
}

/// A deletion leaves the key, the body, the version and the mode of a slot as they are;
/// it marks the slot, unlocks it and clears its lease.
pub proof fn law_tombstone(s: Slot)
    ensures
        ({
            let dead = cuckoo::tombstoned(s);
            &&& key_of(dead) == key_of(s)
            &&& value_of(dead) == value_of(s)
            &&& layout::word_version(dead.lock) == layout::word_version(s.lock)
            &&& layout::word_tombstone(dead.lock)
            &&& !layout::word_locked(dead.lock)
            &&& layout::word_lease(dead.lock) == 0
            &&& !layout::holds(dead, s.hash, s.digest)
        }),
{
    let dead = cuckoo::tombstoned(s);
    layout::lemma_lock_word_fields(
        dead.lock,
        layout::word_version(s.lock),
        0,
        layout::word_extent(s.lock),
        true,
        false,
    );
}

/// A slot that a lock-free insertion claims holds the key, unlocked and in the mode asked
/// for. It starts with an inline value; in Extent mode the body is for the caller to
/// write.
pub proof fn law_claimed_slot(s: Slot, key: layout::HashedKey, value: Seq<u8>, extent: bool)
    requires
        key.hash != 0,
    ensures
        ({
            let c = cuckoo::claimed(s, key, value, extent);
            &&& layout::holds(c, key.hash, key.digest@)
            &&& !layout::vacant(c)
            &&& !layout::word_locked(c.lock)
            &&& layout::word_extent(c.lock) == extent
            &&& extent ==> c.body == s.body
            &&& !extent && value.len() <= 32 ==> c.body.len() == 32 && c.body.subrange(
                0,
                value.len() as int,
            ) == value
        }),
{
    layout::lemma_fresh_lock();
    if value.len() <= 32 {
        law_inline_body_reads_back(value);
    }
}

/// What a lookup makes of an inline entry: the value comes back at the start of 32 bytes,
/// in Inline mode and without an extent.
pub proof fn law_lookup_of_inline(r: cuckoo::LookupResult, s: Slot, value: Seq<u8>)
    requires
        cuckoo::result_of(r, s),
        value_of(s) == (cuckoo::packed(value, false), false),
        value.len() <= 32,
    ensures
        r.mode == layout::BucketMode::Inline,
        r.value@.len() == 32,
        r.value@.subrange(0, value.len() as int) == value,
        r.extent_offset == 0,
        r.extent_length == 0,
{
    law_inline_body_reads_back(value);
}

/// What a lookup makes of an extent entry: the offset and the length come back, in Extent
/// mode.
pub proof fn law_lookup_of_extent(r: cuckoo::LookupResult, s: Slot, offset: u64, length: u64)
    requires
        cuckoo::result_of(r, s),
        value_of(s) == (cuckoo::extent_body(offset, length), true),
    ensures
        r.mode == layout::BucketMode::Extent,
        r.extent_offset == offset,
        r.extent_length == length,
        r.value@.len() == 32,
{
    law_extent_body_reads_back(offset, length);
}

/// A fast lookup agrees with an ordinary one on what a slot holds; of an entry in Extent
/// mode it gives no bytes.
pub proof fn law_fast_lookup_agrees(
    r: cuckoo::LookupResult,
    fast: (Vec<u8>, layout::BucketMode),
    s: Slot,
)
    requires
        cuckoo::result_of(r, s),
        cuckoo::fast_result(fast, s),
    ensures
        fast.1 == r.mode,
        r.mode == layout::BucketMode::Inline ==> fast.0@ == r.value@,
        r.mode == layout::BucketMode::Extent ==> fast.0@.len() == 0,
{
}

/// A value given in Extent mode is a packed reference: its first sixteen bytes are kept,
/// and the offset and length in them are what a lookup reads.
pub proof fn law_packed_reference_reads_back(value: Seq<u8>)
    requires
        value.len() >= 16,
    ensures
        cuckoo::packed(value, true).len() == 32,
        cuckoo::packed(value, true).subrange(0, 16) == value.subrange(0, 16),
        layout::body_extent_ref(cuckoo::packed(value, true)) == (
            codec::le_u64_at(value, 0) as nat,
            codec::le_u64_at(value, 8) as nat,
        ),
{
    let body = cuckoo::packed(value, true);
    assert(body.subrange(0, 16) =~= value.subrange(0, 16));
    assert(body.subrange(0, 8) =~= value.subrange(0, 8));
    assert(body.subrange(8, 16) =~= value.subrange(8, 16));
}

/// The first candidate slot of a key is the remainder of its hash. The second goes by
/// the high half of the hash alone: its remainder, or the slot behind that where it is
/// even.
pub proof fn law_candidate_slots(hash: u64, other: u64, n: int)
    requires
        cuckoo::two_choice(n),
    ensures
        0 <= cuckoo::h1_of(hash, n) < n,
        0 <= cuckoo::h2_of(hash, n) < n,
        (hash - cuckoo::h1_of(hash, n)) % n == 0,
        cuckoo::h2_of(hash, n) % 2 == 1,
        ({
            let x = (hash as int / 0x1_0000_0000) % n;
            cuckoo::h2_of(hash, n) == x || cuckoo::h2_of(hash, n) == x + 1
        }),
        hash / 0x1_0000_0000 == other / 0x1_0000_0000 ==> cuckoo::h2_of(hash, n) == cuckoo::h2_of(
            other,
            n,
        ),
{
    cuckoo::lemma_candidates(hash, n);
    vstd::arithmetic::div_mod::lemma_fundamental_div_mod(hash as int, n);
    vstd::arithmetic::div_mod::lemma_mod_multiples_basic(hash as int / n, n);
    assert(hash - cuckoo::h1_of(hash, n) == (hash as int / n) * n) by (nonlinear_arith)
        requires
            hash as int == n * (hash as int / n) + hash as int % n,
            cuckoo::h1_of(hash, n) == hash as int % n,
    ;
}

/// One is a power of two, twice a power of two is one, and an odd number above one, zero
/// and what is negative are none.
pub proof fn law_powers_of_two(n: int)
    ensures
        cuckoo::power_of_two(1),
        n > 0 ==> (cuckoo::power_of_two(2 * n) <==> cuckoo::power_of_two(n)),
        n > 1 && n % 2 == 1 ==> !cuckoo::power_of_two(n),
        n <= 0 ==> !cuckoo::power_of_two(n),
{
    assert((2 * n) / 2 == n);
}

/// An unlocked candidate slot that holds the key is found by a fast lookup, whatever the
/// other slot is like; the first one is preferred.
pub proof fn law_fast_lookup_skips_locked_slots(t: Seq<Slot>, k: Key)
    requires
        cuckoo::two_choice(t.len() as int),
    ensures
        ({
            let a = cuckoo::h1_of(k.0, t.len() as int);
            let b = cuckoo::h2_of(k.0, t.len() as int);
            let first = !layout::word_locked(t[a].lock) && layout::holds(t[a], k.0, k.1);
            let second = !layout::word_locked(t[b].lock) && layout::holds(t[b], k.0, k.1);
            &&& first ==> cuckoo::find_unlocked(t, k.0, k.1) == Some(a)
            &&& !first && second ==> cuckoo::find_unlocked(t, k.0, k.1) == Some(b)
            &&& !first && !second ==> cuckoo::find_unlocked(t, k.0, k.1) is None
        }),
{
    cuckoo::lemma_candidates(k.0, t.len() as int);
    vstd::arithmetic::div_mod::lemma_small_mod(
        cuckoo::h2_of(k.0, t.len() as int) as nat,
        t.len(),
    );
}

/// A body keeps the first bytes of a value, thirty-two in Inline mode and sixteen in
/// Extent mode, and is zero behind them.
pub proof fn law_packed_body(value: Seq<u8>, i: int)
    requires
        0 <= i < 32,
    ensures
        cuckoo::packed(value, false).len() == 32,
        cuckoo::packed(value, true).len() == 32,
        i < value.len() ==> cuckoo::packed(value, false)[i] == value[i],
        i < value.len() && i < 16 ==> cuckoo::packed(value, true)[i] == value[i],
        i >= value.len() ==> cuckoo::packed(value, false)[i] == 0,
        i >= value.len() || i >= 16 ==> cuckoo::packed(value, true)[i] == 0,
{
}

/// In a table in which nothing was ever written every bucket is zero.
pub proof fn law_new_table(n: nat, i: int)
    requires
        0 <= i < n,
    ensures
        cuckoo::empty_table(n).len() == n,
        cuckoo::empty_table(n)[i].lock == 0,
        cuckoo::empty_table(n)[i].hash == 0,
        cuckoo::empty_table(n)[i].digest.len() == 16,
        cuckoo::empty_table(n)[i].body.len() == 32,
        forall|j: int| 0 <= j < 16 ==> #[trigger] cuckoo::empty_table(n)[i].digest[j] == 0,
        forall|j: int| 0 <= j < 32 ==> #[trigger] cuckoo::empty_table(n)[i].body[j] == 0,
{
}

} // verus!
