//! Which drones fly to an incident: those that are nearest to it.
//!
//! Each drone keeps, for an incident, the distance of every drone that
//! announced itself. The drones are ranked by distance, the nearer first,
//! and by identifier where distances agree; the first few fly.

use vstd::prelude::*;

verus! {

/// A drone and its distance to an incident. The distance is the bit
/// pattern of an IEEE 754 double that is not negative, so that distances
/// are ordered as their bit patterns are.
pub type DronDistance = (u8, u64);

/// Whether `a` goes before `b`: it is nearer, or as near with the smaller
/// identifier.
pub open spec fn spec_precedes(a: DronDistance, b: DronDistance) -> bool {
    a.1 < b.1 || (a.1 == b.1 && a.0 < b.0)
}

/// How many of `distances` go before `entry`: the place of `entry` when
/// the drones are sorted by distance and identifier, counted from zero.
pub open spec fn spec_rank(distances: Seq<DronDistance>, entry: DronDistance) -> nat
    decreases distances.len(),
{
    if distances.len() == 0 {
        0
    } else {
        spec_rank(distances.drop_last(), entry) + (if spec_precedes(distances.last(), entry) {
            1nat
        } else {
            0nat
        })
    }
}

/// Where `distances` first holds the drone `id`; the length of `distances`
/// when it holds it nowhere.
pub open spec fn spec_first_index(distances: Seq<DronDistance>, id: u8) -> int
    decreases distances.len(),
{
    if distances.len() == 0 {
        0
    } else if distances[0].0 == id {
        0
    } else {
        1 + spec_first_index(distances.drop_first(), id)
    }
}

/// `distances` with the distance of the drone `id` set to `distance`: in
/// place of its first entry, or at the end when it has none.
pub open spec fn spec_record(distances: Seq<DronDistance>, id: u8, distance: u64) -> Seq<
    DronDistance,
> {
    let i = spec_first_index(distances, id);
    if i < distances.len() {
        distances.update(i, (id, distance))
    } else {
        distances.push((id, distance))
    }
}

/// Whether the drone `id` flies: it announced itself and fewer than
/// `max_in_flight` drones go before it.
pub open spec fn spec_is_candidate(distances: Seq<DronDistance>, id: u8, max_in_flight: u8) -> bool {
    let i = spec_first_index(distances, id);
    i < distances.len() && spec_rank(distances, distances[i]) < max_in_flight
}

/// The first index of a drone is where the exhaustive search from the front
/// finds it.
pub proof fn lemma_first_index(distances: Seq<DronDistance>, id: u8, i: int)
    requires
        0 <= i <= distances.len(),
        forall|k: int| 0 <= k < i ==> (#[trigger] distances[k]).0 != id,
        i < distances.len() ==> distances[i].0 == id,
    ensures
        spec_first_index(distances, id) == i,
    decreases distances.len(),
{
    if distances.len() > 0 && i > 0 {
        let rest = distances.drop_first();
        assert forall|k: int| 0 <= k < i - 1 implies (#[trigger] rest[k]).0 != id by {
            assert(rest[k] == distances[k + 1]);
        }
        lemma_first_index(rest, id, i - 1);
    }
}

/// Where `distances` first holds the drone `id`; the length of `distances`
/// when it holds it nowhere.
pub fn first_index_of(distances: &Vec<DronDistance>, id: u8) -> (index: usize)
    ensures
        index == spec_first_index(distances@, id),
        index <= distances@.len(),
        index < distances@.len() ==> distances@[index as int].0 == id,
{
    let mut i: usize = 0;
    while i < distances.len()
        invariant
            i <= distances.len(),
            forall|k: int| 0 <= k < i ==> (#[trigger] distances@[k]).0 != id,
        decreases distances.len() - i,
    {
        if distances[i].0 == id {
            proof {
                lemma_first_index(distances@, id, i as int);
            }
            return i;
        }
        i += 1;
    }
    proof {
        lemma_first_index(distances@, id, i as int);
    }
    i
}

/// Sets the distance of the drone `id` to `distance`: in place of its first
/// entry, or at the end when it has none.
pub fn record_distance(distances: &mut Vec<DronDistance>, id: u8, distance: u64)
    ensures
        final(distances)@ == spec_record(old(distances)@, id, distance),
{
    let i: usize = first_index_of(distances, id);
    if i < distances.len() {
        distances[i] = (id, distance);
    } else {
        distances.push((id, distance));
    }
}

/// Whether the drone `id` flies to the incident that `distances` is about:
/// it does when it announced itself and is among the first `max_in_flight`
/// drones, the nearer first and the smaller identifier first among drones
/// as near.
pub fn decide_if_should_move_to_incident(
    distances: &Vec<DronDistance>,
    id: u8,
    max_in_flight: u8,
) -> (should_move: bool)
    ensures
        should_move == spec_is_candidate(distances@, id, max_in_flight),
{
    let i: usize = first_index_of(distances, id);
    if i >= distances.len() {
        return false;
    }
    let mine: DronDistance = distances[i];
    let mut before: usize = 0;
    let mut k: usize = 0;
    assert(distances@.subrange(0, 0) =~= Seq::empty());
    while k < distances.len()
        invariant
            k <= distances.len(),
            before <= k,
            before == spec_rank(distances@.subrange(0, k as int), mine),
        decreases distances.len() - k,
    {
        proof {
            let next = distances@.subrange(0, k + 1);
            assert(next.drop_last() =~= distances@.subrange(0, k as int));
            assert(next.last() == distances@[k as int]);
        }
        let other: DronDistance = distances[k];
        if other.1 < mine.1 || (other.1 == mine.1 && other.0 < mine.0) {
            before += 1;
        }
        k += 1;
    }
    assert(distances@.subrange(0, k as int) =~= distances@);
    before < max_in_flight as usize
}

/// A drone that announced itself as the nearest of all flies, whenever any
/// drone does.
pub proof fn lemma_nearest_is_candidate(distances: Seq<DronDistance>, id: u8, max_in_flight: u8)
    requires
        max_in_flight >= 1,
        spec_first_index(distances, id) < distances.len(),
        forall|k: int|
            0 <= k < distances.len() ==> !spec_precedes(
                #[trigger] distances[k],
                distances[spec_first_index(distances, id)],
            ),
    ensures
        spec_is_candidate(distances, id, max_in_flight),
{
    let mine = distances[spec_first_index(distances, id)];
    lemma_rank_zero(distances, mine);
}

/// An entry that nothing goes before has rank zero.
proof fn lemma_rank_zero(distances: Seq<DronDistance>, entry: DronDistance)
    requires
        forall|k: int| 0 <= k < distances.len() ==> !spec_precedes(#[trigger] distances[k], entry),
    ensures
        spec_rank(distances, entry) == 0,
    decreases distances.len(),
{
    if distances.len() > 0 {
        let rest = distances.drop_last();
        assert forall|k: int| 0 <= k < rest.len() implies !spec_precedes(
            #[trigger] rest[k],
            entry,
        ) by {
            assert(rest[k] == distances[k]);
        }
        lemma_rank_zero(rest, entry);
        assert(!spec_precedes(distances[distances.len() - 1], entry));
    }
}

/// Whether drones are in order: each goes before every later one.
pub open spec fn spec_sorted(distances: Seq<DronDistance>) -> bool {
    forall|i: int, j: int|
        0 <= i < j < distances.len() ==> spec_precedes(
            #[trigger] distances[i],
            #[trigger] distances[j],
        )
}

/// Taking one drone out lowers the rank of an entry by one exactly when
/// that drone went before it.
proof fn lemma_rank_remove(distances: Seq<DronDistance>, j: int, entry: DronDistance)
    requires
        0 <= j < distances.len(),
    ensures
        spec_rank(distances, entry) == spec_rank(distances.remove(j), entry) + (if spec_precedes(
            distances[j],
            entry,
        ) {
            1nat
        } else {
            0nat
        }),
    decreases distances.len(),
{
    let n = distances.len() as int;
    if j == n - 1 {
        assert(distances.remove(j) =~= distances.drop_last());
    } else {
        let front = distances.drop_last();
        lemma_rank_remove(front, j, entry);
        assert(distances.remove(j).drop_last() =~= front.remove(j));
        assert(distances.remove(j).last() == distances.last());
        assert(front[j] == distances[j]);
    }
}

/// The rank of an entry does not depend on the order in which the drones
/// are held.
pub proof fn lemma_rank_of_permutation(
    distances: Seq<DronDistance>,
    other: Seq<DronDistance>,
    entry: DronDistance,
)
    requires
        distances.to_multiset() == other.to_multiset(),
    ensures
        spec_rank(distances, entry) == spec_rank(other, entry),
    decreases distances.len(),
{
    vstd::seq_lib::to_multiset_len(distances);
    vstd::seq_lib::to_multiset_len(other);
    if distances.len() > 0 {
        let n = distances.len() as int;
        let last = distances.last();
        vstd::seq_lib::to_multiset_contains(distances, last);
        vstd::seq_lib::to_multiset_contains(other, last);
        assert(distances[n - 1] == last);
        assert(distances.contains(last));
        assert(other.contains(last));
        let j = choose|j: int| 0 <= j < other.len() && other[j] == last;
        vstd::seq_lib::to_multiset_remove(distances, n - 1);
        vstd::seq_lib::to_multiset_remove(other, j);
        assert(distances.remove(n - 1) =~= distances.drop_last());
        lemma_rank_of_permutation(distances.drop_last(), other.remove(j), entry);
        lemma_rank_remove(other, j, entry);
    }
}

/// Among the first `n` drones of an ordered sequence, those that go before
/// the drone at place `k` are the first `k`, or all `n` when `n` is less.
proof fn lemma_rank_in_sorted_prefix(sorted: Seq<DronDistance>, k: int, n: int)
    requires
        spec_sorted(sorted),
        0 <= k < sorted.len(),
        0 <= n <= sorted.len(),
    ensures
        spec_rank(sorted.subrange(0, n), sorted[k]) == (if n <= k {
            n
        } else {
            k
        }),
    decreases n,
{
    if n > 0 {
        let prefix = sorted.subrange(0, n);
        lemma_rank_in_sorted_prefix(sorted, k, n - 1);
        assert(prefix.drop_last() =~= sorted.subrange(0, n - 1));
        assert(prefix.last() == sorted[n - 1]);
        if n - 1 < k {
            assert(spec_precedes(sorted[n - 1], sorted[k]));
        } else if n - 1 > k {
            assert(spec_precedes(sorted[k], sorted[n - 1]));
        }
    }
}

/// The rank of a drone is its place when the drones are sorted by distance
/// and identifier: so the drones that fly are the first `max_in_flight` of
/// the sorted drones.
pub proof fn lemma_rank_is_place_when_sorted(
    distances: Seq<DronDistance>,
    sorted: Seq<DronDistance>,
    k: int,
)
    requires
        sorted.to_multiset() == distances.to_multiset(),
        spec_sorted(sorted),
        0 <= k < sorted.len(),
    ensures
        spec_rank(distances, sorted[k]) == k,
{
    lemma_rank_of_permutation(distances, sorted, sorted[k]);
    lemma_rank_in_sorted_prefix(sorted, k, sorted.len() as int);
    assert(sorted.subrange(0, sorted.len() as int) =~= sorted);
}

} // verus!
