//! Laws of kick chains: which displacements a chain makes, and when a chain places
//! a key or gives up.

use vstd::prelude::*;

use crate::engine::cuckoo;
use crate::engine::cuckoo_laws;
use crate::engine::layout;
use crate::engine::layout::Slot;

verus! {

/// A step of a chain: an entry is written into a slot.
pub type Step = (int, Slot);

/// The table after the writes of some steps.
pub open spec fn played(t: Seq<Slot>, steps: Seq<Step>) -> Seq<Slot>
    decreases steps.len(),
{
    if steps.len() == 0 {
        t
    } else {
        played(t, steps.drop_last()).update(steps.last().0, steps.last().1)
    }
}

/// The slot of step `j` as the chain finds it.
pub open spec fn occupant(t: Seq<Slot>, steps: Seq<Step>, j: int) -> Slot {
    played(t, steps.take(j))[steps[j].0]
}

/// Step `j + 1` carries on what step `j` displaced: the same key, value and mode, in
/// the candidate slot of that key where it was not.
pub open spec fn linked(t: Seq<Slot>, steps: Seq<Step>, j: int) -> bool {
    let out = occupant(t, steps, j);
    let (at, (next, entry)) = (steps[j].0, steps[j + 1]);
    let (a, b) = (cuckoo::h1_of(out.hash, t.len() as int), cuckoo::h2_of(out.hash, t.len() as int));
    &&& entry.hash == out.hash
    &&& entry.digest == out.digest
    &&& entry.body == out.body
    &&& layout::word_extent(entry.lock) == layout::word_extent(out.lock)
    &&& !layout::word_tombstone(entry.lock)
    &&& !layout::word_locked(entry.lock)
    &&& next == (if at == a {
        b
    } else {
        a
    })
}

/// The steps are a chain that starts with `hand` on its way into slot `at`.
pub open spec fn chain(t: Seq<Slot>, at: int, hand: Slot, steps: Seq<Step>) -> bool {
    &&& steps.len() > 0
    &&& steps[0] == (at, hand)
    &&& forall|j: int| 0 <= j < steps.len() - 1 ==> #[trigger] linked(t, steps, j)
}

/// The first `n` steps find their slots taken.
pub open spec fn taken(t: Seq<Slot>, steps: Seq<Step>, n: int) -> bool {
    forall|j: int| 0 <= j < n ==> !layout::vacant(#[trigger] occupant(t, steps, j))
}

/// A step in front of some steps is the first write.
proof fn lemma_played_after(t: Seq<Slot>, first: Step, steps: Seq<Step>)
    ensures
        played(t, seq![first] + steps) == played(t.update(first.0, first.1), steps),
    decreases steps.len(),
{
    let all = seq![first] + steps;
    if steps.len() == 0 {
        assert(all.drop_last() =~= Seq::<Step>::empty());
        assert(all.last() == first);
        assert(played(t, all.drop_last()) == t);
    } else {
        assert(all.drop_last() =~= seq![first] + steps.drop_last());
        assert(all.last() == steps.last());
        lemma_played_after(t, first, steps.drop_last());
    }
}

/// A chain of the table after one step, with that step in front.
pub proof fn lemma_chain_longer(t: Seq<Slot>, first: Step, rest: Seq<Step>)
    requires
        rest.len() > 0,
        0 <= first.0 < t.len(),
    ensures
        ({
            let all = seq![first] + rest;
            let u = t.update(first.0, first.1);
            &&& all.len() == rest.len() + 1
            &&& occupant(t, all, 0) == t[first.0]
            &&& forall|j: int|
                1 <= j < all.len() ==> #[trigger] occupant(t, all, j) == occupant(u, rest, j - 1)
            &&& forall|j: int|
                1 <= j < all.len() - 1 ==> #[trigger] linked(t, all, j) == linked(u, rest, j - 1)
        }),
{
    let all = seq![first] + rest;
    let u = t.update(first.0, first.1);
    assert(all.take(0) =~= Seq::<Step>::empty());
    assert forall|j: int| 1 <= j < all.len() implies #[trigger] occupant(t, all, j) == occupant(
        u,
        rest,
        j - 1,
    ) by {
        assert(all.take(j) =~= seq![first] + rest.take(j - 1));
        lemma_played_after(t, first, rest.take(j - 1));
    }
    assert forall|j: int| 1 <= j < all.len() - 1 implies #[trigger] linked(t, all, j) == linked(
        u,
        rest,
        j - 1,
    ) by {
        assert(occupant(t, all, j) == occupant(u, rest, j - 1));
    }
}

/// The witness that a chain which ran out of kicks found every slot taken.
pub open spec fn blocked(t: Seq<Slot>, at: int, hand: Slot, kicks: nat, steps: Seq<Step>) -> bool {
    &&& chain(t, at, hand, steps)
    &&& steps.len() == kicks + 1
    &&& taken(t, steps, steps.len() as int)
}

proof fn lemma_blocked(t: Seq<Slot>, at: int, hand: Slot, fuel: nat)
    requires
        cuckoo::two_choice(t.len() as int),
        0 <= at < t.len(),
        !layout::vacant(t[at]),
        cuckoo::kick_in(t, at, hand, fuel) is None,
    ensures
        exists|steps: Seq<Step>| blocked(t, at, hand, fuel, steps),
    decreases fuel,
{
    if fuel == 0 {
        let steps = seq![(at, hand)];
        assert(steps.take(0) =~= Seq::<Step>::empty());
        assert(occupant(t, steps, 0) == t[at]);
        assert(blocked(t, at, hand, fuel, steps));
    } else {
        let victim = cuckoo::refreshed(t[at]);
        let swapped = t.update(at, hand);
        let alt = cuckoo::alternate_of(victim.hash, at, t.len() as int);
        cuckoo::lemma_candidates(victim.hash, t.len() as int);
        layout::lemma_fresh_lock();
        let less = (fuel - 1) as nat;
        lemma_blocked(swapped, alt, victim, less);
        let rest = choose|rest: Seq<Step>| blocked(swapped, alt, victim, less, rest);
        let all = seq![(at, hand)] + rest;
        lemma_chain_longer(t, (at, hand), rest);
        assert(linked(t, all, 0));
        assert forall|j: int| 0 <= j < all.len() - 1 implies #[trigger] linked(t, all, j) by {
            if j > 0 {
                assert(linked(swapped, rest, j - 1));
            }
        }
        assert forall|j: int| 0 <= j < all.len() implies !layout::vacant(
            #[trigger] occupant(t, all, j),
        ) by {
            if j > 0 {
                assert(!layout::vacant(occupant(swapped, rest, j - 1)));
            }
        }
        assert(blocked(t, at, hand, fuel, all));
    }
}

/// An insertion is refused only when the table has no way to make room: both
/// candidate slots of the new key are taken, and following the displaced entries,
/// inline or extent, to their other slots for `max_kick` kicks meets no vacant slot.
pub proof fn law_refusal_found_no_room(t: Seq<Slot>, new: Slot, max_kick: nat)
    requires
        cuckoo::two_choice(t.len() as int),
        !cuckoo::insert_in(t, new, max_kick).1,
    ensures
        !layout::vacant(t[cuckoo::h1_of(new.hash, t.len() as int)]),
        !layout::vacant(t[cuckoo::h2_of(new.hash, t.len() as int)]),
        exists|steps: Seq<Step>|
            blocked(t, cuckoo::h1_of(new.hash, t.len() as int), new, max_kick, steps),
{
    cuckoo::lemma_candidates(new.hash, t.len() as int);
    lemma_blocked(t, cuckoo::h1_of(new.hash, t.len() as int), new, max_kick);
}

/// An insertion of a new key whose first candidate slot is vacant puts it there, and
/// one whose second candidate slot alone is vacant puts it there; nothing else changes.
pub proof fn law_vacant_candidate_is_taken(t: Seq<Slot>, new: Slot, max_kick: nat)
    requires
        cuckoo::two_choice(t.len() as int),
        cuckoo::find_in(t, new.hash, new.digest) is None,
    ensures
        ({
            let (a, b) = (
                cuckoo::h1_of(new.hash, t.len() as int),
                cuckoo::h2_of(new.hash, t.len() as int),
            );
            let (u, done) = cuckoo::insert_in(t, new, max_kick);
            &&& layout::vacant(t[a]) ==> done && u == t.update(a, new)
            &&& !layout::vacant(t[a]) && layout::vacant(t[b]) ==> done && u == t.update(b, new)
        }),
{
}

/// An insertion of a key that is stored replaces that entry and nothing else,
/// whatever the rest of the table holds.
pub proof fn law_stored_key_is_replaced(t: Seq<Slot>, new: Slot, max_kick: nat)
    requires
        cuckoo::two_choice(t.len() as int),
        cuckoo::find_in(t, new.hash, new.digest) is Some,
    ensures
        cuckoo::insert_in(t, new, max_kick) == (
            t.update(cuckoo::find_in(t, new.hash, new.digest)->0, new),
            true,
        ),
{
}

/// One kick is enough: when both candidate slots of a new key are taken, a kick is
/// allowed, and the entry in the first one, inline or extent, has its other slot
/// vacant, the insertion succeeds. The new entry stands in the first slot, the
/// displaced one in its other slot with its key, value and mode, and every other slot
/// is as it was.
pub proof fn law_one_kick(t: Seq<Slot>, new: Slot, max_kick: nat, at: int, other: int)
    requires
        cuckoo::two_choice(t.len() as int),
        cuckoo::find_in(t, new.hash, new.digest) is None,
        at == cuckoo::h1_of(new.hash, t.len() as int),
        !layout::vacant(t[at]),
        !layout::vacant(t[cuckoo::h2_of(new.hash, t.len() as int)]),
        max_kick > 0,
        // The slot of the displaced entry where it is not.
        other != at,
        other == cuckoo::h1_of(t[at].hash, t.len() as int) || other == cuckoo::h2_of(
            t[at].hash,
            t.len() as int,
        ),
        at == cuckoo::h1_of(t[at].hash, t.len() as int) || at == cuckoo::h2_of(
            t[at].hash,
            t.len() as int,
        ),
        layout::vacant(t[other]),
    ensures
        ({
            let (u, done) = cuckoo::insert_in(t, new, max_kick);
            &&& done
            &&& u.len() == t.len()
            &&& u[at] == new
            &&& cuckoo_laws::key_of(u[other]) == cuckoo_laws::key_of(t[at])
            &&& cuckoo_laws::value_of(u[other]) == cuckoo_laws::value_of(t[at])
            &&& !layout::vacant(u[other])
            &&& forall|i: int| 0 <= i < t.len() && i != at && i != other ==> #[trigger] u[i] == t[i]
        }),
{
    cuckoo::lemma_candidates(new.hash, t.len() as int);
    cuckoo::lemma_candidates(t[at].hash, t.len() as int);
    layout::lemma_fresh_lock();
}

/// A chain that runs through taken slots to a vacant one within the kicks allowed is
/// the one that an insertion carries out, so the insertion succeeds: each visited slot
/// holds what the chain put there last, and no other slot changes.
pub proof fn law_open_chain_places(t: Seq<Slot>, new: Slot, max_kick: nat, steps: Seq<Step>)
    requires
        cuckoo::two_choice(t.len() as int),
        cuckoo::find_in(t, new.hash, new.digest) is None,
        !layout::vacant(t[cuckoo::h2_of(new.hash, t.len() as int)]),
        chain(t, cuckoo::h1_of(new.hash, t.len() as int), new, steps),
        2 <= steps.len() <= max_kick + 1,
        taken(t, steps, steps.len() - 1),
        layout::vacant(occupant(t, steps, steps.len() - 1)),
        // The displaced entries are written without version and lease.
        forall|j: int|
            1 <= j < steps.len() ==> (#[trigger] steps[j]).1 == layout::fresh_slot(
                steps[j].1.hash,
                steps[j].1.digest,
                steps[j].1.body,
                layout::word_extent(steps[j].1.lock),
            ),
    ensures
        cuckoo::insert_in(t, new, max_kick) == (played(t, steps), true),
{
    cuckoo::lemma_candidates(new.hash, t.len() as int);
    assert(steps.take(0) =~= Seq::<Step>::empty());
    assert(!layout::vacant(occupant(t, steps, 0)));
    lemma_open(t, cuckoo::h1_of(new.hash, t.len() as int), new, max_kick, steps);
}

proof fn lemma_open(t: Seq<Slot>, at: int, hand: Slot, fuel: nat, steps: Seq<Step>)
    requires
        cuckoo::two_choice(t.len() as int),
        0 <= at < t.len(),
        chain(t, at, hand, steps),
        2 <= steps.len() <= fuel + 1,
        taken(t, steps, steps.len() - 1),
        layout::vacant(occupant(t, steps, steps.len() - 1)),
        forall|j: int|
            1 <= j < steps.len() ==> (#[trigger] steps[j]).1 == layout::fresh_slot(
                steps[j].1.hash,
                steps[j].1.digest,
                steps[j].1.body,
                layout::word_extent(steps[j].1.lock),
            ),
    ensures
        cuckoo::kick_in(t, at, hand, fuel) == Some(played(t, steps)),
    decreases fuel,
{
    let n = t.len() as int;
    let victim = cuckoo::refreshed(t[at]);
    let swapped = t.update(at, hand);
    let alt = cuckoo::alternate_of(victim.hash, at, n);
    let rest = steps.skip(1);
    cuckoo::lemma_candidates(victim.hash, n);
    layout::lemma_fresh_lock();
    assert(steps =~= seq![(at, hand)] + rest);
    lemma_chain_longer(t, (at, hand), rest);
    lemma_played_after(t, (at, hand), rest);
    assert(linked(t, steps, 0));
    assert(steps[1].1 == layout::fresh_slot(
        steps[1].1.hash,
        steps[1].1.digest,
        steps[1].1.body,
        layout::word_extent(steps[1].1.lock),
    ));
    assert(rest[0] == (alt, victim));
    assert(rest.take(0) =~= Seq::<Step>::empty());
    assert(occupant(t, steps, 1) == occupant(swapped, rest, 0));
    if steps.len() == 2 {
        assert(rest.drop_last() =~= Seq::<Step>::empty());
        assert(played(swapped, rest) == swapped.update(alt, victim)) by {
            reveal_with_fuel(played, 2);
        }
    } else {
        assert(!layout::vacant(occupant(t, steps, 1)));
        assert forall|j: int| 0 <= j < rest.len() - 1 implies #[trigger] linked(
            swapped,
            rest,
            j,
        ) by {
            assert(linked(t, steps, j + 1));
        }
        assert forall|j: int| 0 <= j < rest.len() - 1 implies !layout::vacant(
            #[trigger] occupant(swapped, rest, j),
        ) by {
            assert(!layout::vacant(occupant(t, steps, j + 1)));
        }
        assert forall|j: int|
            1 <= j < rest.len() implies (#[trigger] rest[j]).1 == layout::fresh_slot(
            rest[j].1.hash,
            rest[j].1.digest,
            rest[j].1.body,
            layout::word_extent(rest[j].1.lock),
        ) by {
            assert(rest[j] == steps[j + 1]);
        }
        assert(occupant(t, steps, steps.len() - 1) == occupant(swapped, rest, rest.len() - 1));
        lemma_open(swapped, alt, victim, (fuel - 1) as nat, rest);
    }
}

} // verus!
