//! Which entities are outlined together, and how the per-type outline state
//! follows the set of outline types in the scene.
use std::collections::BTreeMap;
use std::collections::HashSet;

use vstd::prelude::*;

use crate::editor::data_types::Entity;

verus! {

broadcast use vstd::std_specs::btree::group_btree_axioms, vstd::std_specs::hash::group_hash_axioms;

/// Stands for the type that an outline belongs to: outlines of one type are
/// drawn with one configuration, into one mask.
pub type OutlineTypeKey = u64;

/// Some outline in `outlines` has type `key`.
pub open spec fn has_outline_type<C>(outlines: Seq<(Entity, OutlineTypeKey, C)>, key: OutlineTypeKey) -> bool {
    exists|i: int| 0 <= i < outlines.len() && #[trigger] outlines[i].1 == key
}

/// The entities whose outline has type `key`.
pub open spec fn entities_of_type<C>(outlines: Seq<(Entity, OutlineTypeKey, C)>, key: OutlineTypeKey) -> Set<Entity> {
    Set::new(|e: Entity| exists|i: int| 0 <= i < outlines.len() && #[trigger] outlines[i].1 == key && outlines[i].0 == e)
}

/// The position of the last outline of type `key` (-1 when there is none).
pub open spec fn last_of_type<C>(outlines: Seq<(Entity, OutlineTypeKey, C)>, key: OutlineTypeKey) -> int
    decreases outlines.len(),
{
    if outlines.len() == 0 {
        -1
    } else if outlines.last().1 == key {
        outlines.len() - 1
    } else {
        last_of_type(outlines.drop_last(), key)
    }
}

proof fn lemma_last_of_type<C>(outlines: Seq<(Entity, OutlineTypeKey, C)>, key: OutlineTypeKey)
    ensures
        has_outline_type(outlines, key) ==> {
            let l = last_of_type(outlines, key);
            &&& 0 <= l < outlines.len()
            &&& outlines[l].1 == key
            &&& forall|j: int| l < j < outlines.len() ==> outlines[j].1 != key
        },
        !has_outline_type(outlines, key) ==> last_of_type(outlines, key) == -1,
    decreases outlines.len(),
{
    if outlines.len() > 0 {
        let rest = outlines.drop_last();
        lemma_last_of_type(rest, key);
        if outlines.last().1 != key {
            if has_outline_type(outlines, key) {
                let i = choose|i: int| 0 <= i < outlines.len() && #[trigger] outlines[i].1 == key;
                assert(i != outlines.len() - 1);
                assert(rest[i].1 == key);
                let l = last_of_type(rest, key);
                assert forall|j: int| l < j < outlines.len() implies outlines[j].1 != key by {
                    if j < outlines.len() - 1 {
                        assert(rest[j] == outlines[j]);
                    }
                }
            }
            if has_outline_type(rest, key) {
                let i = choose|i: int| 0 <= i < rest.len() && #[trigger] rest[i].1 == key;
                assert(outlines[i].1 == key);
            }
        } else {
            assert(outlines[outlines.len() - 1].1 == key);
        }
    }
}

/// Groups the outlined entities by outline type. Each type present gets the set
/// of its entities and the configuration of the last outline of that type.
pub fn group_outlines<C: Copy>(outlines: &Vec<(Entity, OutlineTypeKey, C)>) -> (groups: BTreeMap<OutlineTypeKey, (HashSet<Entity>, C)>)
    ensures
        forall|key: OutlineTypeKey| #[trigger] groups@.contains_key(key) <==> has_outline_type(outlines@, key),
        forall|key: OutlineTypeKey| #[trigger] groups@.contains_key(key) ==> {
            &&& groups@[key].0@ == entities_of_type(outlines@, key)
            &&& groups@[key].1 == outlines@[last_of_type(outlines@, key)].2
        },
{
    let mut groups: BTreeMap<OutlineTypeKey, (HashSet<Entity>, C)> = BTreeMap::new();
    for n in 0..outlines.len()
        invariant
            forall|key: OutlineTypeKey| #[trigger] groups@.contains_key(key) <==> has_outline_type(outlines@.take(n as int), key),
            forall|key: OutlineTypeKey| #[trigger] groups@.contains_key(key) ==> {
                &&& groups@[key].0@ == entities_of_type(outlines@.take(n as int), key)
                &&& groups@[key].1 == outlines@.take(n as int)[last_of_type(outlines@.take(n as int), key)].2
            },
    {
        let (entity, key, config) = outlines[n];
        let ghost old_groups = groups@;
        let mut entities: HashSet<Entity> = match groups.remove(&key) {
            Some(group) => group.0,
            None => HashSet::new(),
        };
        entities.insert(entity);
        groups.insert(key, (entities, config));
        proof {
            let before = outlines@.take(n as int);
            let after = outlines@.take(n + 1);
            assert(after.drop_last() =~= before);
            assert(after.last() == (entity, key, config));
            assert forall|k: OutlineTypeKey| #[trigger] groups@.contains_key(k) <==> has_outline_type(after, k) by {
                if has_outline_type(before, k) {
                    let i = choose|i: int| 0 <= i < before.len() && #[trigger] before[i].1 == k;
                    assert(after[i].1 == k);
                }
                if has_outline_type(after, k) && k != key {
                    let i = choose|i: int| 0 <= i < after.len() && #[trigger] after[i].1 == k;
                    assert(before[i].1 == k);
                }
                assert(after[n as int].1 == key);
            }
            assert forall|k: OutlineTypeKey| #[trigger] groups@.contains_key(k) implies {
                &&& groups@[k].0@ == entities_of_type(after, k)
                &&& groups@[k].1 == after[last_of_type(after, k)].2
            } by {
                assert(entities_of_type(after, k) =~= if k == key {
                    entities_of_type(before, k).insert(entity)
                } else {
                    entities_of_type(before, k)
                }) by {
                    assert forall|e: Entity| entities_of_type(after, k).contains(e) implies
                        (if k == key { entities_of_type(before, k).insert(entity) } else { entities_of_type(before, k) }).contains(e) by {
                        let i = choose|i: int| 0 <= i < after.len() && #[trigger] after[i].1 == k && after[i].0 == e;
                        if i < n {
                            assert(before[i].1 == k);
                        }
                    }
                    assert forall|e: Entity| entities_of_type(before, k).contains(e) implies entities_of_type(after, k).contains(e) by {
                        let i = choose|i: int| 0 <= i < before.len() && #[trigger] before[i].1 == k && before[i].0 == e;
                        assert(after[i].1 == k);
                    }
                    if k == key {
                        assert(after[n as int].1 == k);
                    }
                }
                if k == key {
                    if !old_groups.contains_key(key) {
                        assert(entities_of_type(before, key) =~= Set::empty()) by {
                            assert forall|e: Entity| !entities_of_type(before, key).contains(e) by {
                                if entities_of_type(before, key).contains(e) {
                                    let i = choose|i: int| 0 <= i < before.len() && #[trigger] before[i].1 == key && before[i].0 == e;
                                    assert(has_outline_type(before, key));
                                }
                            }
                        }
                    }
                } else {
                    lemma_last_of_type(before, k);
                    assert(after[last_of_type(before, k)] == before[last_of_type(before, k)]);
                }
            }
        }
    }
    proof {
        assert(outlines@.take(outlines@.len() as int) =~= outlines@);
    }
    groups
}

/// Every outlined entity is in the group of its outline's type, and that
/// group is drawn with the configuration of the last outline of the type.
pub proof fn lemma_outlined_entity_in_its_group<C>(
    outlines: Seq<(Entity, OutlineTypeKey, C)>,
    groups: Map<OutlineTypeKey, (HashSet<Entity>, C)>,
    i: int,
)
    requires
        0 <= i < outlines.len(),
        forall|key: OutlineTypeKey| #[trigger] groups.contains_key(key) <==> has_outline_type(outlines, key),
        forall|key: OutlineTypeKey| #[trigger] groups.contains_key(key) ==> {
            &&& groups[key].0@ == entities_of_type(outlines, key)
            &&& groups[key].1 == outlines[last_of_type(outlines, key)].2
        },
    ensures
        groups.contains_key(outlines[i].1),
        groups[outlines[i].1].0@.contains(outlines[i].0),
        last_of_type(outlines, outlines[i].1) >= i,
{
    let key = outlines[i].1;
    assert(has_outline_type(outlines, key));
    assert(entities_of_type(outlines, key).contains(outlines[i].0));
    lemma_last_of_type(outlines, key);
}

} // verus!
