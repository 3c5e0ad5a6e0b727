//! The order in which the point lights are laid out for the lighting pass.
use vstd::prelude::*;
use vstd::std_specs::cmp::OrdSpec;
use vstd::std_specs::iter::IteratorSpec;

use crate::editor::data_types::Entity;
use crate::render::light::DynamicLights;

verus! {

broadcast use vstd::std_specs::btree::group_btree_axioms, vstd::laws_cmp::group_laws_cmp;

impl<L: Copy> DynamicLights<L> {
    /// The lights' records in increasing entity order, as they are laid out in
    /// the storage buffer.
    pub fn lights_in_entity_order(&self) -> (ordered: Vec<L>)
        ensures
            exists|keys: Seq<Entity>|
                {
                    &&& forall|i: int, j: int| 0 <= i < j < keys.len() ==> keys[i] < keys[j]
                    &&& keys.to_set() == self.point_lights@.dom()
                    &&& ordered@ == keys.map_values(|k: Entity| self.point_lights@[k])
                },
    {
        let values = self.point_lights.values();
        let ghost all = values.remaining();
        let mut ordered: Vec<L> = Vec::new();
        for v in it: values
            invariant
                it.seq() == all,
                ordered@ == it.seq().take(it.index()).map_values(|r: &L| *r),
        {
            ordered.push(*v);
        }
        proof {
            let m = self.point_lights@;
            assert(all.take(all.len() + 0int) =~= all);
            let keys = choose|keys: Seq<Entity>|
                {
                    &&& vstd::std_specs::btree::increasing_seq(keys)
                    &&& keys.to_set() == m.dom()
                    &&& keys.no_duplicates()
                    &&& all == keys.map(|i: int, k: Entity| &m[k])
                };
            assert forall|i: int, j: int| 0 <= i < j < keys.len() implies keys[i] < keys[j] by {
                assert(keys[i].cmp_spec(&keys[j]) is Less);
            }
            assert(ordered@ =~= keys.map_values(|k: Entity| m[k]));
        }
        ordered
    }
}

} // verus!
