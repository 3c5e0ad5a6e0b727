//! The point lights uploaded to the lighting pass, kept by entity.
use std::collections::BTreeMap;

use vstd::prelude::*;

use crate::editor::data_types::Entity;

verus! {

broadcast use vstd::std_specs::btree::group_btree_axioms;

/// The current GPU-ready record `L` of every point light, by entity.
pub struct DynamicLights<L> {
    pub point_lights: BTreeMap<Entity, L>,
}

impl<L> DynamicLights<L> {
    /// No light.
    pub fn new() -> (lights: Self)
        ensures
            lights.point_lights@ == Map::<Entity, L>::empty(),
    {
        DynamicLights { point_lights: BTreeMap::new() }
    }

    /// Records the new state of a light that was added or changed.
    pub fn update_light(&mut self, entity: Entity, light: L)
        ensures
            final(self).point_lights@ == old(self).point_lights@.insert(entity, light),
    {
        self.point_lights.insert(entity, light);
    }

    /// Forgets a light whose component was removed.
    pub fn remove_light(&mut self, entity: Entity)
        ensures
            final(self).point_lights@ == old(self).point_lights@.remove(entity),
    {
        self.point_lights.remove(&entity);
    }

    /// The number of point lights, as the light uniform records it (`u32`, truncated).
    pub fn point_light_count(&self) -> (count: u32)
        ensures
            count == self.point_lights@.len() as u32,
    {
        self.point_lights.len() as u32
    }
}

} // verus!
