//! The coverage de-duplication protocol and its laws.
//!
//! A session reports each observed code location at most once across its
//! lifetime. The protocol over one collection step is modeled by two set
//! functions: [`collect_delta`] is what a collection returns (the observed
//! locations not yet reported), and [`collect_after`] is the reported set
//! afterwards. The session's collection method is specified against exactly
//! these functions, so the laws proved here hold of its behaviour.
//!
//! This module also renders a sparse location list into a caller-owned
//! fixed-capacity bitmap, for consumers that want a dense feedback map
//! rather than an exact list.

use vstd::prelude::*;

verus! {

/// What one collection returns, given the locations reported so far and the
/// locations observed now: exactly the observations not yet reported.
pub open spec fn collect_delta(reported: Set<u64>, observed: Set<u64>) -> Set<u64> {
    observed.difference(reported)
}

/// The reported set after one collection: everything reported so far plus
/// everything observed now.
pub open spec fn collect_after(reported: Set<u64>, observed: Set<u64>) -> Set<u64> {
    reported.union(observed)
}

/// Ignore-protocol idempotence: once a collection has run, a second
/// collection whose observations add nothing new — in particular one made
/// immediately, with no run in between — returns an empty delta.
pub proof fn lemma_second_collection_empty(reported: Set<u64>, first: Set<u64>, second: Set<u64>)
    requires
        second.subset_of(collect_after(reported, first)),
    ensures
        collect_delta(collect_after(reported, first), second) == Set::<u64>::empty(),
{
    assert(collect_delta(collect_after(reported, first), second) =~= Set::<u64>::empty());
}

/// Collections never double-report: the deltas of two successive
/// collections are disjoint, whatever was observed each time.
pub proof fn lemma_collections_disjoint(reported: Set<u64>, first: Set<u64>, second: Set<u64>)
    ensures
        collect_delta(reported, first).disjoint(
            collect_delta(collect_after(reported, first), second),
        ),
{
    assert forall|x: u64|
        collect_delta(reported, first).contains(x) implies !collect_delta(
        collect_after(reported, first),
        second,
    ).contains(x) by {
        assert(collect_after(reported, first).contains(x));
    }
}

/// A later run that exercises strictly more than an earlier one yields a
/// delta that is non-empty and disjoint from the earlier delta, starting
/// from a fresh session.
pub proof fn lemma_superset_run_new_delta(first: Set<u64>, second: Set<u64>)
    requires
        first.subset_of(second),
        first != second,
    ensures
        collect_delta(Set::<u64>::empty(), first) == first,
        collect_delta(collect_after(Set::<u64>::empty(), first), second) != Set::<u64>::empty(),
        collect_delta(Set::<u64>::empty(), first).disjoint(
            collect_delta(collect_after(Set::<u64>::empty(), first), second),
        ),
{
    assert(collect_delta(Set::<u64>::empty(), first) =~= first);
    lemma_collections_disjoint(Set::<u64>::empty(), first, second);
    if collect_delta(collect_after(Set::<u64>::empty(), first), second) == Set::<u64>::empty() {
        assert forall|x: u64| second.contains(x) implies first.contains(x) by {
            assert(!second.difference(collect_after(Set::<u64>::empty(), first)).contains(x));
            assert(collect_after(Set::<u64>::empty(), first).contains(x));
        }
        assert(first =~= second);
    }
}

/// The slot a location folds into inside a dense map of `capacity` slots.
pub open spec fn dense_slot(location: u64, capacity: nat) -> int {
    location as int % capacity as int
}

/// Renders a sparse location list into a caller-owned fixed-capacity
/// bitmap: slot `s` ends up `1` exactly when some listed location folds
/// into `s`, and `0` otherwise. Distinct locations may share a slot; such
/// collisions are inherent to a fixed-size map and are not corrected.
pub fn render_dense(locations: &Vec<u64>, map: &mut Vec<u8>)
    requires
        old(map).len() > 0,
    ensures
        final(map)@.len() == old(map)@.len(),
        forall|s: int|
            0 <= s < final(map)@.len() ==> final(map)@[s] == (if (exists|k: int|
                0 <= k < locations@.len() && dense_slot(
                    #[trigger] locations@[k],
                    final(map)@.len(),
                ) == s) {
                1u8
            } else {
                0u8
            }),
{
    let capacity = map.len();
    let mut s: usize = 0;
    while s < capacity
        invariant
            capacity == map@.len(),
            s <= capacity,
            forall|p: int| 0 <= p < s ==> map@[p] == 0u8,
        decreases capacity - s,
    {
        map.set(s, 0);
        s += 1;
    }
    let mut k: usize = 0;
    while k < locations.len()
        invariant
            capacity == map@.len(),
            capacity > 0,
            k <= locations@.len(),
            forall|p: int|
                0 <= p < capacity ==> map@[p] == (if (exists|q: int|
                    0 <= q < k && dense_slot(#[trigger] locations@[q], capacity as nat) == p) {
                    1u8
                } else {
                    0u8
                }),
        decreases locations@.len() - k,
    {
        let loc = locations[k];
        let slot = (loc % (capacity as u64)) as usize;
        proof {
            assert(dense_slot(loc, capacity as nat) == slot);
        }
        map.set(slot, 1);
        proof {
            assert forall|p: int|
                0 <= p < capacity implies map@[p] == (if (exists|q: int|
                0 <= q < k + 1 && dense_slot(#[trigger] locations@[q], capacity as nat) == p) {
                1u8
            } else {
                0u8
            }) by {
                if p == slot {
                    assert(dense_slot(locations@[k as int], capacity as nat) == p);
                } else {
                    assert forall|q: int|
                        0 <= q < k + 1 && dense_slot(
                            #[trigger] locations@[q],
                            capacity as nat,
                        ) == p implies 0 <= q < k by {}
                }
            }
        }
        k += 1;
    }
}

} // verus!
