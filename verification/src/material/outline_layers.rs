//! Keeping per-type outline state in step with the outline types in use.
use std::collections::BTreeMap;

use vstd::prelude::*;
use vstd::std_specs::iter::IteratorSpec;

use crate::material::outline_groups::OutlineTypeKey;

verus! {

broadcast use vstd::std_specs::btree::group_btree_axioms;

/// The types that have an entry in `a` and none in `b`, each once.
fn types_missing_from<V, W>(a: &BTreeMap<OutlineTypeKey, V>, b: &BTreeMap<OutlineTypeKey, W>) -> (types: Vec<OutlineTypeKey>)
    ensures
        types@.to_set() == a@.dom().difference(b@.dom()),
        types@.no_duplicates(),
{
    let keys = a.keys();
    let ghost all = keys.remaining().unref();
    let mut types: Vec<OutlineTypeKey> = Vec::new();
    for k in it: keys
        invariant
            it.seq().unref() == all,
            all.to_set() == a@.dom(),
            all.no_duplicates(),
            types@.no_duplicates(),
            forall|t: OutlineTypeKey| #[trigger] types@.contains(t) <==>
                (exists|j: int| 0 <= j < it.index() && all[j] == t) && !b@.contains_key(t),
    {
        let ghost idx = it.index();
        proof {
            assert(all[idx] == *k);
            assert forall|j: int| 0 <= j < idx implies all[j] != *k by {
                assert(all[j] != all[idx]);
            }
        }
        let ghost before = types@;
        if !b.contains_key(k) {
            assert(!before.contains(*k));
            types.push(*k);
        }
        proof {
            assert forall|t: OutlineTypeKey| #[trigger] types@.contains(t) implies
                (exists|j: int| 0 <= j < idx + 1 && all[j] == t) && !b@.contains_key(t) by {
                if t != *k {
                    assert(before.contains(t));
                    let j = choose|j: int| 0 <= j < idx && all[j] == t;
                    assert(0 <= j < idx + 1 && all[j] == t);
                } else {
                    assert(all[idx] == t);
                }
            }
            assert forall|t: OutlineTypeKey|
                (exists|j: int| 0 <= j < idx + 1 && all[j] == t) && !b@.contains_key(t) implies #[trigger] types@.contains(t) by {
                let j = choose|j: int| 0 <= j < idx + 1 && all[j] == t;
                if j < idx {
                    assert(before.contains(t));
                    let p = choose|p: int| 0 <= p < before.len() && before[p] == t;
                    assert(types@[p] == t);
                } else {
                    assert(types@[types@.len() - 1] == t);
                }
            }
        }
    }
    proof {
        assert forall|t: OutlineTypeKey| #[trigger] types@.to_set().contains(t) <==> a@.dom().difference(b@.dom()).contains(t) by {
            if a@.dom().contains(t) {
                assert(all.to_set().contains(t));
                let j = choose|j: int| 0 <= j < all.len() && all[j] == t;
            }
        }
        assert(types@.to_set() =~= a@.dom().difference(b@.dom()));
    }
    types
}

/// Drops the entries of `state` whose type has no entry in `in_use`, and returns
/// the types of `in_use` that have no entry in `state` yet, each once: the
/// caller creates an entry for each of them.
pub fn retain_outline_types<V, W>(state: &mut BTreeMap<OutlineTypeKey, V>, in_use: &BTreeMap<OutlineTypeKey, W>) -> (to_create: Vec<OutlineTypeKey>)
    ensures
        final(state)@ == old(state)@.restrict(in_use@.dom()),
        to_create@.to_set() == in_use@.dom().difference(old(state)@.dom()),
        to_create@.no_duplicates(),
{
    let stale = types_missing_from(state, in_use);
    let ghost start = state@;
    for i in it: 0..stale.len()
        invariant
            stale@.to_set() == start.dom().difference(in_use@.dom()),
            forall|t: OutlineTypeKey| #[trigger] state@.contains_key(t) <==>
                start.contains_key(t) && !(exists|j: int| 0 <= j < it.index() && stale@[j] == t),
            forall|t: OutlineTypeKey| #[trigger] state@.contains_key(t) ==> state@[t] == start[t],
    {
        let ghost idx = it.index();
        state.remove(&stale[i]);
        proof {
            assert(i == idx);
            assert forall|t: OutlineTypeKey| #[trigger] state@.contains_key(t) <==>
                start.contains_key(t) && !(exists|j: int| 0 <= j < idx + 1 && stale@[j] == t) by {
                if exists|j: int| 0 <= j < idx + 1 && stale@[j] == t {
                    let j = choose|j: int| 0 <= j < idx + 1 && stale@[j] == t;
                    if j < idx {
                        assert(exists|j: int| 0 <= j < idx && stale@[j] == t);
                    }
                }
            }
        }
    }
    proof {
        assert forall|t: OutlineTypeKey| #[trigger] state@.contains_key(t) <==> start.restrict(in_use@.dom()).contains_key(t) by {
            if start.contains_key(t) && !in_use@.contains_key(t) {
                assert(stale@.to_set().contains(t));
                let j = choose|j: int| 0 <= j < stale@.len() && stale@[j] == t;
            }
            if exists|j: int| 0 <= j < stale@.len() && stale@[j] == t {
                let j = choose|j: int| 0 <= j < stale@.len() && stale@[j] == t;
                assert(stale@.to_set().contains(t));
            }
        }
        assert(state@ =~= start.restrict(in_use@.dom()));
    }
    types_missing_from(in_use, state)
}

/// Once the stale entries are dropped and an entry is created for every type
/// that `retain_outline_types` returned, the types that have state are exactly
/// the types in use.
pub proof fn lemma_retain_then_create_covers_in_use<V, W>(
    before: Map<OutlineTypeKey, V>,
    in_use: Map<OutlineTypeKey, W>,
    retained: Map<OutlineTypeKey, V>,
    to_create: Seq<OutlineTypeKey>,
    after: Map<OutlineTypeKey, V>,
)
    requires
        retained == before.restrict(in_use.dom()),
        to_create.to_set() == in_use.dom().difference(before.dom()),
        after.dom() == retained.dom().union(to_create.to_set()),
    ensures
        after.dom() == in_use.dom(),
        forall|t: OutlineTypeKey| #[trigger] retained.contains_key(t) ==> after.contains_key(t) && retained[t] == before[t],
{
    assert(after.dom() =~= in_use.dom());
}

} // verus!
