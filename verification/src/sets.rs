//! Identifier sets: the operations on `HashSet` that the rest of the crate needs.

use std::collections::HashSet;
use std::hash::Hash;
use vstd::prelude::*;

verus! {

broadcast use vstd::std_specs::hash::group_hash_axioms;

/// A copy of `set`.
pub(crate) fn clone_set<T: Copy + Eq + Hash>(set: &HashSet<T>) -> (copy: HashSet<T>)
    requires
        vstd::std_specs::hash::obeys_key_model::<T>(),
    ensures
        copy@ == set@,
{
    let mut copy: HashSet<T> = HashSet::new();
    for id in it: set.iter()
        invariant
            vstd::std_specs::hash::obeys_key_model::<T>(),
            it.seq().unref().to_set() == set@,
            copy@ == it.seq().unref().take(it.index()).to_set(),
            it.seq().unref().take(it.seq().len() as int) == it.seq().unref(),
    {
        proof {
            let ids = it.seq().unref();
            let i = it.index();
            assert(ids.take(i + 1) == ids.take(i).push(ids[i]));
            assert(ids.take(i).push(ids[i]).to_set() == ids.take(i).to_set().insert(ids[i])) by {
                let before = ids.take(i);
                let after = before.push(ids[i]);
                assert forall|x: T| after.to_set().contains(x) == before.to_set().insert(
                    ids[i],
                ).contains(x) by {
                    if after.contains(x) {
                        let k = choose|k: int| 0 <= k < after.len() && after[k] == x;
                        if k < before.len() {
                            assert(before[k] == x);
                        }
                    }
                    if before.contains(x) {
                        let k = choose|k: int| 0 <= k < before.len() && before[k] == x;
                        assert(after[k] == x);
                    }
                    assert(after[before.len() as int] == ids[i]);
                }
            }
        }
        copy.insert(*id);
    }
    copy
}

/// Whether every identifier of `query` is also in `candidate`.
pub(crate) fn is_subset<T: Eq + Hash>(query: &HashSet<T>, candidate: &HashSet<T>) -> (r: bool)
    requires
        vstd::std_specs::hash::obeys_key_model::<T>(),
    ensures
        r == query@.subset_of(candidate@),
{
    for id in it: query.iter()
        invariant
            vstd::std_specs::hash::obeys_key_model::<T>(),
            it.seq().unref().to_set() == query@,
            forall|j: int| 0 <= j < it.index() ==> candidate@.contains(*#[trigger] it.seq()[j]),
    {
        if !candidate.contains(id) {
            assert(query@.contains(*id));
            return false;
        }
    }
    true
}

/// The identifiers of `set` as a list, in no order that is promised.
pub(crate) fn to_list<T: Copy + Eq + Hash>(set: &HashSet<T>) -> (list: Vec<T>)
    requires
        vstd::std_specs::hash::obeys_key_model::<T>(),
    ensures
        list@.to_set() == set@,
{
    let mut list: Vec<T> = Vec::new();
    for id in it: set.iter()
        invariant
            vstd::std_specs::hash::obeys_key_model::<T>(),
            it.seq().unref().to_set() == set@,
            list@ == it.seq().unref().take(it.index()),
            it.seq().unref().take(it.seq().len() as int) == it.seq().unref(),
    {
        proof {
            let ids = it.seq().unref();
            let i = it.index();
            assert(ids.take(i + 1) == ids.take(i).push(ids[i]));
        }
        list.push(*id);
    }
    list
}

} // verus!
