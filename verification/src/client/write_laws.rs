//! Laws of the client write path: what a write does to the map that the table
//! represents, and what a read finds afterwards.

use vstd::prelude::*;

use crate::client::read;
use crate::client::write::Outcome;
use crate::codec;
use crate::engine::chain_laws;
use crate::engine::chain_laws::Step;
use crate::engine::cuckoo;
use crate::engine::cuckoo_laws;
use crate::engine::cuckoo_laws::{Key, Value};
use crate::engine::extent;
use crate::engine::extent::RegionState;
use crate::engine::extent_laws;
use crate::engine::layout;
use crate::engine::layout::{HashedKey, Slot};

verus! {

/// The map is `all` without the entry of `missing`.
pub open spec fn one_short(map: Map<Key, Value>, all: Map<Key, Value>, missing: Key) -> bool {
    all.dom().contains(missing) && map == all.remove(missing)
}

/// A chain of displacements that ends well is an eviction of the table, and one
/// that ends badly leaves a valid table from which one entry is missing.
proof fn lemma_displace(
    t: Seq<Slot>,
    at: int,
    hand: Slot,
    hand_new: bool,
    home: int,
    fuel: nat,
)
    requires
        cuckoo_laws::valid(t),
        0 <= at < t.len(),
        !layout::vacant(t[at]),
        !layout::vacant(hand),
        at == cuckoo::h1_of(hand.hash, t.len() as int) || at == cuckoo::h2_of(
            hand.hash,
            t.len() as int,
        ),
        forall|i: int|
            0 <= i < t.len() && !layout::vacant(#[trigger] t[i]) ==> cuckoo_laws::key_of(t[i])
                != cuckoo_laws::key_of(hand),
    ensures
        ({
            let (u, end) = crate::client::write::displace(t, at, hand, hand_new, home, t.len() as int, fuel);
            let grown = cuckoo_laws::contents(t).insert(
                cuckoo_laws::key_of(hand),
                cuckoo_laws::value_of(hand),
            );
            &&& u.len() == t.len()
            &&& cuckoo_laws::valid(u)
            &&& end is Some ==> cuckoo_laws::contents(u) == grown
            &&& end is None ==> exists|v: Key| #[trigger]
                one_short(cuckoo_laws::contents(u), grown, v)
        }),
    decreases fuel,
{
    let n = t.len() as int;
    let before = cuckoo_laws::contents(t);
    let grown = before.insert(cuckoo_laws::key_of(hand), cuckoo_laws::value_of(hand));
    if fuel == 0 || !crate::client::write::displaceable(t[at]) {
        cuckoo_laws::law_two_probes(t, cuckoo_laws::key_of(hand));
        assert(grown.remove(cuckoo_laws::key_of(hand)) =~= before);
        assert(one_short(before, grown, cuckoo_laws::key_of(hand)));
        assert(crate::client::write::displace(t, at, hand, hand_new, home, n, fuel).0 == t);
    } else {
        let victim = layout::fresh_slot(t[at].hash, t[at].digest, t[at].body, false);
        assert(victim == cuckoo::refreshed(t[at]));
        let swapped = t.update(at, hand);
        let alt = cuckoo::alternate_of(victim.hash, at, n);
        cuckoo::lemma_candidates(victim.hash, n);
        layout::lemma_fresh_lock();
        // One kick.
        cuckoo_laws::lemma_put(t, at, hand);
        cuckoo_laws::law_two_probes(t, cuckoo_laws::key_of(victim));
        assert(layout::holds(t[at], victim.hash, victim.digest));
        assert(before.dom().contains(cuckoo_laws::key_of(victim)));
        assert forall|i: int|
            0 <= i < n && !layout::vacant(#[trigger] swapped[i]) implies cuckoo_laws::key_of(
            swapped[i],
        ) != cuckoo_laws::key_of(victim) by {
            if i != at {
                assert(swapped[i] == t[i]);
            }
        }
        let regrown = cuckoo_laws::contents(swapped).insert(
            cuckoo_laws::key_of(victim),
            cuckoo_laws::value_of(victim),
        );
        assert(regrown =~= grown);
        let victim_new = !hand_new && at == home;
        let new_home = if hand_new {
            at
        } else {
            home
        };
        if layout::vacant(swapped[alt]) {
            cuckoo_laws::lemma_put(swapped, alt, victim);
            let u = swapped.update(alt, victim);
            assert(crate::client::write::displace(t, at, hand, hand_new, home, n, fuel).0 == u);
            assert(cuckoo_laws::contents(u) == grown);
        } else {
            lemma_displace(swapped, alt, victim, victim_new, new_home, (fuel - 1) as nat);
            let (u, end) = crate::client::write::displace(
                swapped,
                alt,
                victim,
                victim_new,
                new_home,
                n,
                (fuel - 1) as nat,
            );
            assert(crate::client::write::displace(t, at, hand, hand_new, home, n, fuel) == (
                u,
                end,
            ));
            if end is None {
                let v = choose|v: Key| #[trigger]
                    one_short(cuckoo_laws::contents(u), regrown, v);
                assert(one_short(cuckoo_laws::contents(u), grown, v));
            }
        }
    }
}

/// No entry of the table has the key.
pub open spec fn absent(t: Seq<Slot>, k: Key) -> bool {
    forall|i: int|
        0 <= i < t.len() && !layout::vacant(#[trigger] t[i]) ==> cuckoo_laws::key_of(t[i]) != k
}

/// No entry of the table but the one in slot `at` has the key.
pub open spec fn absent_but(t: Seq<Slot>, k: Key, at: int) -> bool {
    forall|i: int|
        0 <= i < t.len() && i != at && !layout::vacant(#[trigger] t[i]) ==> cuckoo_laws::key_of(
            t[i],
        ) != k
}

/// In a valid table, a key that a lookup does not find is in no slot.
pub proof fn lemma_not_found_is_absent(t: Seq<Slot>, k: Key)
    requires
        cuckoo_laws::valid(t),
        k.0 != 0,
        cuckoo::find_in(t, k.0, k.1) is None,
    ensures
        absent(t, k),
{
    cuckoo_laws::law_two_probes(t, k);
    assert forall|i: int| 0 <= i < t.len() && !layout::vacant(#[trigger] t[i]) implies
        cuckoo_laws::key_of(t[i]) != k by {
        if cuckoo_laws::key_of(t[i]) == k {
            assert(layout::holds(t[i], k.0, k.1));
        }
    }
}

/// The slot that a chain of displacements reports is the one with the new entry:
/// a candidate slot of its key, and the only one with that key.
proof fn lemma_home(
    t: Seq<Slot>,
    at: int,
    hand: Slot,
    hand_new: bool,
    home: int,
    entry: Slot,
    fuel: nat,
)
    requires
        cuckoo::two_choice(t.len() as int),
        0 <= at < t.len(),
        !layout::vacant(t[at]),
        !layout::vacant(entry),
        layout::word_extent(entry.lock) || entry == cuckoo::refreshed(entry),
        hand_new ==> hand == entry && absent(t, cuckoo_laws::key_of(entry)) && candidate(
            entry.hash,
            at,
            t.len() as int,
        ),
        !hand_new ==> {
            &&& 0 <= home < t.len()
            &&& t[home] == entry
            &&& candidate(entry.hash, home, t.len() as int)
            &&& absent_but(t, cuckoo_laws::key_of(entry), home)
            &&& cuckoo_laws::key_of(hand) != cuckoo_laws::key_of(entry)
        },
    ensures
        ({
            let (u, end) = crate::client::write::displace(t, at, hand, hand_new, home, t.len() as int, fuel);
            &&& u.len() == t.len()
            &&& end matches Some(i) ==> {
                &&& 0 <= i < u.len()
                &&& u[i] == entry
                &&& candidate(entry.hash, i, t.len() as int)
                &&& absent_but(u, cuckoo_laws::key_of(entry), i)
            }
        }),
    decreases fuel,
{
    if fuel > 0 && crate::client::write::displaceable(t[at]) {
        let k = cuckoo_laws::key_of(entry);
        let victim = layout::fresh_slot(t[at].hash, t[at].digest, t[at].body, false);
        let victim_new = !hand_new && at == home;
        let new_home = if hand_new {
            at
        } else {
            home
        };
        let swapped = t.update(at, hand);
        let alt = cuckoo::alternate_of(victim.hash, at, t.len() as int);
        cuckoo::lemma_candidates(victim.hash, t.len() as int);
        assert(victim_new ==> victim == entry);
        assert(!victim_new ==> cuckoo_laws::key_of(victim) != k);
        assert(victim_new ==> absent(swapped, k));
        assert(!victim_new ==> swapped[new_home] == entry && absent_but(swapped, k, new_home));
        if !layout::vacant(swapped[alt]) {
            lemma_home(swapped, alt, victim, victim_new, new_home, entry, (fuel - 1) as nat);
        } else {
            let u = swapped.update(alt, victim);
            assert(victim_new ==> absent_but(u, k, alt));
            assert(!victim_new ==> absent_but(u, k, new_home));
        }
    }
}

/// The slot is one that a key with this hash can be in.
pub open spec fn candidate(hash: u64, at: int, n: int) -> bool {
    at == cuckoo::h1_of(hash, n) || at == cuckoo::h2_of(hash, n)
}

/// A write of a key that the table does not hold keeps the table valid. When it
/// succeeds, the reported slot holds the entry, the map gained the key with its
/// value, and no other entry changed. When the table is full, one entry of that
/// map is missing.
pub proof fn law_write(
    t: Seq<Slot>,
    key: HashedKey,
    value: Seq<u8>,
    extent: bool,
    region: Option<RegionState>,
)
    requires
        cuckoo_laws::valid(t),
        key.hash != 0,
        cuckoo::find_in(t, key.hash, key.digest@) is None,
    ensures
        ({
            let w = crate::client::write::write_of(t, key, value, extent, region, t.len() as int);
            &&& w.table.len() == t.len()
            &&& w.outcome matches Outcome::Placed(i) ==> {
                &&& cuckoo_laws::valid(w.table)
                &&& 0 <= i < t.len()
                &&& cuckoo_laws::key_of(w.table[i]) == (key.hash, key.digest@)
                &&& !layout::word_locked(w.table[i].lock)
                &&& layout::word_extent(w.table[i].lock) == extent
                &&& !extent ==> w.table[i].body == cuckoo::packed(value, false)
                &&& cuckoo_laws::contents(w.table) == cuckoo_laws::contents(t).insert(
                    (key.hash, key.digest@),
                    cuckoo_laws::value_of(w.table[i]),
                )
                &&& cuckoo::find_in(w.table, key.hash, key.digest@) == Some(i)
            }
            &&& w.outcome is Full ==> cuckoo_laws::valid(w.table) && exists|v: Key, x: Value|
                #[trigger] one_short(
                    cuckoo_laws::contents(w.table),
                    cuckoo_laws::contents(t).insert((key.hash, key.digest@), x),
                    v,
                )
        }),
{
    let n = t.len() as int;
    let w = crate::client::write::write_of(t, key, value, extent, region, n);
    let k = (key.hash, key.digest@);
    let (a, b) = (cuckoo::h1_of(key.hash, n), cuckoo::h2_of(key.hash, n));
    cuckoo::lemma_candidates(key.hash, n);
    cuckoo_laws::law_two_probes(t, k);
    layout::lemma_fresh_lock();
    if cuckoo::claimable(t[a]) || cuckoo::claimable(t[b]) {
        if let Outcome::Placed(i) = w.outcome {
            let entry = w.table[i];
            cuckoo_laws::law_lock_free_insert(t, i, entry);
            cuckoo_laws::law_two_probes(w.table, k);
            assert(layout::holds(w.table[i], key.hash, key.digest@));
        }
    } else if !crate::client::write::displaceable(t[a]) {
        let x = (Seq::<u8>::empty(), false);
        let grown = cuckoo_laws::contents(t).insert(k, x);
        assert(grown.remove(k) =~= cuckoo_laws::contents(t));
        assert(one_short(cuckoo_laws::contents(w.table), grown, k));
    } else {
        lemma_not_found_is_absent(t, k);
        match crate::client::write::new_entry(key, value, extent, region, t[a].body.subrange(16, 32)) {
            (Ok(entry), r) => {
                assert(!layout::vacant(t[a]));
                lemma_displace(t, a, entry, true, a, crate::client::write::MAX_KICK as nat);
                lemma_home(t, a, entry, true, a, entry, crate::client::write::MAX_KICK as nat);
                let (u, end) = crate::client::write::displace(t, a, entry, true, a, n, crate::client::write::MAX_KICK as nat);
                let grown = cuckoo_laws::contents(t).insert(k, cuckoo_laws::value_of(entry));
                match end {
                    Some(i) => {
                        cuckoo_laws::law_two_probes(u, k);
                        assert(layout::holds(u[i], key.hash, key.digest@));
                    },
                    None => {
                        let v = choose|v: Key| #[trigger]
                            one_short(cuckoo_laws::contents(u), grown, v);
                        assert(one_short(cuckoo_laws::contents(w.table), grown, v));
                    },
                }
            },
            (Err(msg), r) => {},
        }
    }
}

/// The reference in an entry written in Extent mode is the one of the extent.
proof fn lemma_reference(off: u64, len: nat, tail: Seq<u8>)
    requires
        len <= u64::MAX,
    ensures
        layout::body_extent_ref(codec::le_digits(off as nat, 8) + codec::le_digits(len, 8) + tail)
            == (off as nat, len),
{
    let body = codec::le_digits(off as nat, 8) + codec::le_digits(len, 8) + tail;
    reveal_with_fuel(codec::byte_range, 9);
    codec::lemma_decode_encode(off as nat, 8);
    codec::lemma_decode_encode(len, 8);
    assert(body.subrange(0, 8) =~= codec::le_digits(off as nat, 8));
    assert(body.subrange(8, 16) =~= codec::le_digits(len, 8));
}

/// A write that succeeds puts its entry into one candidate slot, and no other slot
/// has the key. The body is the packed value in Inline mode; in Extent mode it refers
/// to the extent that was allocated.
pub proof fn lemma_placed_entry(
    t: Seq<Slot>,
    key: HashedKey,
    value: Seq<u8>,
    extent: bool,
    region: Option<RegionState>,
)
    requires
        cuckoo::two_choice(t.len() as int),
        key.hash != 0,
        absent(t, (key.hash, key.digest@)),
        extent ==> value.len() <= u64::MAX,
    ensures
        ({
            let n = t.len() as int;
            let k = (key.hash, key.digest@);
            let w = crate::client::write::write_of(t, key, value, extent, region, n);
            w.outcome matches Outcome::Placed(i) ==> {
                &&& w.table.len() == t.len()
                &&& 0 <= i < n
                &&& candidate(key.hash, i, n)
                &&& read::hit(w.table[i], key.hash, key.digest@)
                &&& absent_but(w.table, k, i)
                &&& layout::word_extent(w.table[i].lock) == extent
                &&& !extent ==> w.region == region && w.table[i].body == cuckoo::packed(
                    value,
                    false,
                )
                &&& extent ==> region is Some && ({
                    let (r2, off) = extent::allocate_in(region->0, value);
                    &&& w.region == Some(r2)
                    &&& off is Some
                    &&& layout::body_extent_ref(w.table[i].body) == (off->0 as nat, value.len())
                })
            }
        }),
{
    let n = t.len() as int;
    let k = (key.hash, key.digest@);
    let w = crate::client::write::write_of(t, key, value, extent, region, n);
    let (a, b) = (cuckoo::h1_of(key.hash, n), cuckoo::h2_of(key.hash, n));
    cuckoo::lemma_candidates(key.hash, n);
    layout::lemma_fresh_lock();
    if extent && region is Some {
        let off = extent::allocate_in(region->0, value).1;
        if off is Some {
            lemma_reference(off->0, value.len(), Seq::new(16, |i: int| 0u8));
            lemma_reference(off->0, value.len(), t[a].body.subrange(16, 32));
        }
    }
    if cuckoo::claimable(t[a]) || cuckoo::claimable(t[b]) {
        if let Outcome::Placed(i) = w.outcome {
            assert(w.table =~= t.update(i, w.table[i]));
        }
    } else if crate::client::write::displaceable(t[a]) {
        match crate::client::write::new_entry(key, value, extent, region, t[a].body.subrange(16, 32)) {
            (Ok(entry), r) => {
                lemma_home(t, a, entry, true, a, entry, crate::client::write::MAX_KICK as nat);
            },
            (Err(msg), r) => {},
        }
    }
}

/// A read gives back what a write of a new key stored. An inline value comes back as
/// the 32-byte body that starts with it; a value in an extent comes back as it was.
pub proof fn law_write_then_read(
    t: Seq<Slot>,
    key: HashedKey,
    value: Seq<u8>,
    extent: bool,
    region: Option<RegionState>,
)
    requires
        cuckoo::power_of_two(t.len() as int),
        2 <= t.len() <= u64::MAX,
        key.hash != 0,
        absent(t, (key.hash, key.digest@)),
        extent ==> value.len() <= u32::MAX && (region matches Some(r) ==> extent::sound(r)),
    ensures
        ({
            let w = crate::client::write::write_of(t, key, value, extent, region, t.len() as int);
            w.outcome is Placed ==> read::get_of(
                w.table,
                w.region,
                key.hash,
                key.digest@,
                t.len() as u64,
            ) == Ok::<Option<read::Found>, crate::error::ErrorView>(
                Some(
                    if extent {
                        (value, true)
                    } else {
                        (cuckoo::packed(value, false), false)
                    },
                ),
            )
        }),
{
    let w = crate::client::write::write_of(t, key, value, extent, region, t.len() as int);
    cuckoo::lemma_power_of_two(t.len() as int);
    lemma_placed_entry(t, key, value, extent, region);
    if let Outcome::Placed(i) = w.outcome {
        let n = t.len() as int;
        let (a, b) = (cuckoo::h1_of(key.hash, n), cuckoo::h2_of(key.hash, n));
        cuckoo::lemma_candidates(key.hash, n);
        if extent {
            extent_laws::law_allocate(region->0, value);
        }
        // The other candidate slot does not have the key.
        assert(a != i ==> !read::hit(w.table[a], key.hash, key.digest@));
        assert(b != i ==> !read::hit(w.table[b], key.hash, key.digest@));
    }
}

/// The entry can be displaced by a client: it is unlocked, and its value is in the
/// bucket.
pub open spec fn movable(s: Slot) -> bool {
    !layout::word_locked(s.lock) && !layout::word_extent(s.lock)
}

/// The witness that a chain of at most `kicks` displacements ended without room: every
/// slot that it came to was taken, and either the kicks ran out or the last entry it
/// came to is locked or in an extent.
pub open spec fn stuck(t: Seq<Slot>, at: int, hand: Slot, kicks: nat, steps: Seq<Step>) -> bool {
    &&& chain_laws::chain(t, at, hand, steps)
    &&& chain_laws::taken(t, steps, steps.len() as int)
    &&& steps.len() <= kicks + 1
    &&& steps.len() == kicks + 1 || !movable(
        chain_laws::occupant(t, steps, steps.len() - 1),
    )
}

proof fn lemma_stuck(
    t: Seq<Slot>,
    at: int,
    hand: Slot,
    hand_new: bool,
    home: int,
    fuel: nat,
)
    requires
        cuckoo::two_choice(t.len() as int),
        0 <= at < t.len(),
        !layout::vacant(t[at]),
        crate::client::write::displace(t, at, hand, hand_new, home, t.len() as int, fuel).1 is None,
    ensures
        exists|steps: Seq<Step>| stuck(t, at, hand, fuel, steps),
    decreases fuel,
{
    let n = t.len() as int;
    if fuel == 0 || !crate::client::write::displaceable(t[at]) {
        let steps = seq![(at, hand)];
        assert(steps.take(0) =~= Seq::<Step>::empty());
        assert(chain_laws::occupant(t, steps, 0) == t[at]);
        assert(stuck(t, at, hand, fuel, steps));
    } else {
        let victim = layout::fresh_slot(t[at].hash, t[at].digest, t[at].body, false);
        let victim_new = !hand_new && at == home;
        let new_home = if hand_new {
            at
        } else {
            home
        };
        let swapped = t.update(at, hand);
        let alt = cuckoo::alternate_of(victim.hash, at, n);
        cuckoo::lemma_candidates(victim.hash, n);
        layout::lemma_fresh_lock();
        let less = (fuel - 1) as nat;
        lemma_stuck(swapped, alt, victim, victim_new, new_home, less);
        let rest = choose|rest: Seq<Step>| stuck(swapped, alt, victim, less, rest);
        let all = seq![(at, hand)] + rest;
        chain_laws::lemma_chain_longer(t, (at, hand), rest);
        assert(chain_laws::linked(t, all, 0));
        assert forall|j: int| 0 <= j < all.len() - 1 implies #[trigger] chain_laws::linked(
            t,
            all,
            j,
        ) by {
            if j > 0 {
                assert(chain_laws::linked(swapped, rest, j - 1));
            }
        }
        assert forall|j: int| 0 <= j < all.len() implies !layout::vacant(
            #[trigger] chain_laws::occupant(t, all, j),
        ) by {
            if j > 0 {
                assert(!layout::vacant(chain_laws::occupant(swapped, rest, j - 1)));
            }
        }
        assert(chain_laws::occupant(t, all, all.len() - 1) == chain_laws::occupant(
            swapped,
            rest,
            rest.len() - 1,
        ));
        assert(stuck(t, at, hand, fuel, all));
    }
}

/// A write reports a full table only when there is no room for the key, inline or
/// extent: neither candidate slot is vacant and unlocked, and either the entry in the
/// first one is locked or in an extent, or following the displaced entries for at most
/// sixteen kicks came to taken slots only and ended at a locked or extent entry or with
/// the sixteenth kick.
pub proof fn law_full_table_had_no_room(
    t: Seq<Slot>,
    key: HashedKey,
    value: Seq<u8>,
    extent: bool,
    region: Option<RegionState>,
)
    requires
        cuckoo::two_choice(t.len() as int),
        crate::client::write::write_of(t, key, value, extent, region, t.len() as int).outcome is Full,
    ensures
        ({
            let n = t.len() as int;
            let (a, b) = (cuckoo::h1_of(key.hash, n), cuckoo::h2_of(key.hash, n));
            &&& layout::word_locked(t[a].lock) || !layout::vacant(t[a])
            &&& layout::word_locked(t[b].lock) || !layout::vacant(t[b])
            &&& !movable(t[a]) || exists|steps: Seq<Step>| #[trigger]
                stuck(t, a, steps[0].1, 16, steps) && steps[0].1.hash == key.hash
                    && steps[0].1.digest == key.digest@ && layout::word_extent(steps[0].1.lock)
                    == extent
        }),
{
    let n = t.len() as int;
    let a = cuckoo::h1_of(key.hash, n);
    cuckoo::lemma_candidates(key.hash, n);
    layout::lemma_fresh_lock();
    assert(crate::client::write::MAX_KICK == 16);
    if movable(t[a]) {
        match crate::client::write::new_entry(key, value, extent, region, t[a].body.subrange(16, 32)) {
            (Ok(entry), r) => {
                lemma_stuck(t, a, entry, true, a, 16);
                let steps = choose|steps: Seq<Step>| stuck(t, a, entry, 16, steps);
                assert(steps[0].1 == entry);
                assert(stuck(t, a, steps[0].1, 16, steps));
            },
            (Err(msg), r) => {},
        }
    }
}

/// A write takes a candidate slot that is vacant and unlocked, the first one first,
/// for an inline value and for one whose extent can be allocated; every other slot is
/// as it was.
pub proof fn law_free_slot_is_taken(
    t: Seq<Slot>,
    key: HashedKey,
    value: Seq<u8>,
    extent: bool,
    region: Option<RegionState>,
    at: int,
)
    requires
        cuckoo::two_choice(t.len() as int),
        extent ==> region is Some && extent::allocate_in(region->0, value).1 is Some,
        layout::vacant(t[at]) && !layout::word_locked(t[at].lock),
        ({
            let n = t.len() as int;
            let (a, b) = (cuckoo::h1_of(key.hash, n), cuckoo::h2_of(key.hash, n));
            at == a || (at == b && (layout::word_locked(t[a].lock) || !layout::vacant(t[a])))
        }),
    ensures
        ({
            let w = crate::client::write::write_of(t, key, value, extent, region, t.len() as int);
            &&& w.outcome == Outcome::Placed(at)
            &&& w.table.len() == t.len()
            &&& cuckoo_laws::key_of(w.table[at]) == (key.hash, key.digest@)
            &&& forall|i: int| 0 <= i < t.len() && i != at ==> #[trigger] w.table[i] == t[i]
        }),
{
    cuckoo::lemma_candidates(key.hash, t.len() as int);
}

/// One displacement is enough: when both candidate slots of a key are taken, and the
/// entry in the first one is unlocked and inline and has its other slot vacant, a write
/// of an inline value, or of one whose extent can be allocated, puts the new entry into
/// the first slot and the displaced one, with its key and value, into its other slot.
pub proof fn law_one_displacement(
    t: Seq<Slot>,
    key: HashedKey,
    value: Seq<u8>,
    extent: bool,
    region: Option<RegionState>,
    at: int,
    other: int,
)
    requires
        cuckoo::two_choice(t.len() as int),
        extent ==> region is Some && extent::allocate_in(region->0, value).1 is Some,
        at == cuckoo::h1_of(key.hash, t.len() as int),
        !layout::vacant(t[at]),
        movable(t[at]),
        ({
            let b = cuckoo::h2_of(key.hash, t.len() as int);
            !layout::vacant(t[b]) || layout::word_locked(t[b].lock)
        }),
        other != at,
        candidate(t[at].hash, at, t.len() as int),
        candidate(t[at].hash, other, t.len() as int),
        layout::vacant(t[other]),
    ensures
        ({
            let w = crate::client::write::write_of(t, key, value, extent, region, t.len() as int);
            &&& w.outcome == Outcome::Placed(at)
            &&& w.table.len() == t.len()
            &&& cuckoo_laws::key_of(w.table[at]) == (key.hash, key.digest@)
            &&& cuckoo_laws::key_of(w.table[other]) == cuckoo_laws::key_of(t[at])
            &&& cuckoo_laws::value_of(w.table[other]) == cuckoo_laws::value_of(t[at])
            &&& !layout::vacant(w.table[other])
            &&& forall|i: int|
                0 <= i < t.len() && i != at && i != other ==> #[trigger] w.table[i] == t[i]
        }),
{
    cuckoo::lemma_candidates(key.hash, t.len() as int);
    cuckoo::lemma_candidates(t[at].hash, t.len() as int);
    layout::lemma_fresh_lock();
}

/// A write fails, rather than finding the table full, exactly for the want of an
/// extent: never for an inline value, and for a value in an extent only without a
/// region or when the region cannot allocate it. A value whose extent cannot be
/// allocated is never placed.
pub proof fn law_write_failure(
    t: Seq<Slot>,
    key: HashedKey,
    value: Seq<u8>,
    extent: bool,
    region: Option<RegionState>,
)
    requires
        cuckoo::two_choice(t.len() as int),
    ensures
        ({
            let w = crate::client::write::write_of(t, key, value, extent, region, t.len() as int);
            let missing = extent && (region matches Some(r) ==> extent::allocate_in(r, value).1
                is None);
            &&& w.outcome is Failed ==> missing
            &&& missing ==> w.outcome is Failed || w.outcome is Full
            &&& missing && region is None ==> w.outcome is Full || w.outcome == Outcome::Failed(
                "Extent mode requires a LargeObjectRegion"@,
            )
            &&& missing && region is Some ==> w.outcome is Full || w.outcome == Outcome::Failed(
                "extent allocation failed"@,
            )
        }),
{
}

/// A write in Extent mode that finds both candidate slots taken, may displace the first
/// occupant and gets no extent fails. It leaves the first slot with the new key, unlocked
/// and in Extent mode, over the old body, and every other slot as it was.
pub proof fn law_failed_displacement(
    t: Seq<Slot>,
    key: HashedKey,
    value: Seq<u8>,
    region: Option<RegionState>,
    n: int,
)
    requires
        0 <= cuckoo::h1_of(key.hash, n) < t.len(),
        !cuckoo::claimable(t[cuckoo::h1_of(key.hash, n)]),
        !cuckoo::claimable(t[cuckoo::h2_of(key.hash, n)]),
        !layout::word_locked(t[cuckoo::h1_of(key.hash, n)].lock),
        !layout::word_extent(t[cuckoo::h1_of(key.hash, n)].lock),
        region matches Some(r) ==> extent::allocate_in(r, value).1 is None,
    ensures
        ({
            let a = cuckoo::h1_of(key.hash, n);
            let w = crate::client::write::write_of(t, key, value, true, region, n);
            &&& w.outcome is Failed
            &&& w.table.len() == t.len()
            &&& w.table[a].hash == key.hash
            &&& w.table[a].digest == key.digest@
            &&& w.table[a].body == t[a].body
            &&& layout::word_extent(w.table[a].lock)
            &&& !layout::word_locked(w.table[a].lock)
            &&& forall|i: int| 0 <= i < t.len() && i != a ==> #[trigger] w.table[i] == t[i]
        }),
{
}

} // verus!
