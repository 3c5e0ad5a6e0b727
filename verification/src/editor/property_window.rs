//! Floating property windows, one per inspected entity.
use std::collections::HashMap;

use vstd::prelude::*;

use crate::asset::uuid_text::new_uuid_v4;
use crate::editor::data_types::{Entity, FloatBits};

verus! {

broadcast use vstd::std_specs::hash::group_hash_axioms;

/// The state of one property window.
#[derive(Debug, Clone, Copy)]
pub struct EntityPropertyWindow {
    /// A pinned window stays open when the user clicks elsewhere.
    pub pinned: bool,
    pub open: bool,
    /// The entity whose properties are shown.
    pub entity: Option<Entity>,
    /// The random UUID from which the window's GUI id is derived.
    pub egui_id: u128,
    /// Where the window first appears, as `f32` bit patterns.
    pub init_pos: (FloatBits, FloatBits),
}

impl Default for EntityPropertyWindow {
    /// An open, unpinned window for no entity yet, at the origin, with a fresh random id.
    fn default() -> (window: Self)
        ensures
            !window.pinned,
            window.open,
            window.entity is None,
            window.init_pos == (0u32, 0u32),
    {
        EntityPropertyWindow {
            pinned: false,
            open: true,
            entity: None,
            egui_id: new_uuid_v4(),
            init_pos: (0, 0),
        }
    }
}

impl EntityPropertyWindow {
    /// Closes the window and resets its pin.
    pub fn close(&mut self)
        ensures
            !final(self).open,
            !final(self).pinned,
            final(self).entity == old(self).entity,
            final(self).egui_id == old(self).egui_id,
            final(self).init_pos == old(self).init_pos,
    {
        self.open = false;
        self.pinned = false;
    }

    /// Flips the pin. While pinned, clicking outside does not close the window.
    pub fn toggle_pin(&mut self)
        ensures
            final(self).pinned == !old(self).pinned,
            final(self).open == old(self).open,
            final(self).entity == old(self).entity,
            final(self).egui_id == old(self).egui_id,
            final(self).init_pos == old(self).init_pos,
    {
        self.pinned = !self.pinned;
    }
}

/// A request to open a property window for `entity` at `pos` creates one only
/// when the entity has no window recorded yet.
pub fn should_create_property_window(map: &HashMap<Entity, Entity>, entity: Entity) -> (create: bool)
    ensures
        create == !map@.contains_key(entity),
{
    !map.contains_key(&entity)
}

/// The windows that are removed at the end of a frame: the closed ones.
/// Their entities' entries are dropped from the window map.
pub fn forget_closed_windows(windows: &[EntityPropertyWindow], map: &mut HashMap<Entity, Entity>) -> (closed: Vec<usize>)
    ensures
        forall|i: int, j: int| 0 <= i < j < closed@.len() ==> closed@[i] < closed@[j],
        forall|i: int| 0 <= i < closed@.len() ==> (closed@[i] as int) < windows@.len() && !windows@[closed@[i] as int].open,
        forall|j: int| 0 <= j < windows@.len() && !(#[trigger] windows@[j]).open ==> closed@.contains(j as usize),
        forall|k: Entity| #[trigger] final(map)@.contains_key(k) <==> (old(map)@.contains_key(k)
            && !exists|j: int| 0 <= j < windows@.len() && !windows@[j].open && windows@[j].entity == Some(k)),
        forall|k: Entity| #[trigger] final(map)@.contains_key(k) ==> final(map)@[k] == old(map)@[k],
{
    let mut closed: Vec<usize> = Vec::new();
    let mut i: usize = 0;
    while i < windows.len()
        invariant
            i <= windows@.len(),
            forall|a: int, b: int| 0 <= a < b < closed@.len() ==> closed@[a] < closed@[b],
            forall|c: int| 0 <= c < closed@.len() ==> (closed@[c] as int) < i && !windows@[closed@[c] as int].open,
            forall|j: int| 0 <= j < i && !(#[trigger] windows@[j]).open ==> closed@.contains(j as usize),
            forall|k: Entity| #[trigger] map@.contains_key(k) <==> (old(map)@.contains_key(k)
                && !exists|j: int| 0 <= j < i && !windows@[j].open && windows@[j].entity == Some(k)),
            forall|k: Entity| #[trigger] map@.contains_key(k) ==> map@[k] == old(map)@[k],
        decreases windows@.len() - i,
    {
        let ghost prev = closed@;
        if !windows[i].open {
            closed.push(i);
            match windows[i].entity {
                Some(entity) => {
                    map.remove(&entity);
                },
                None => {},
            }
            assert(closed@.last() == i);
        }
        proof {
            assert forall|j: int| 0 <= j < i + 1 && !(#[trigger] windows@[j]).open implies closed@.contains(j as usize) by {
                if j == i {
                    assert(closed@[closed@.len() - 1] == i);
                } else {
                    assert(prev.contains(j as usize));
                    let k = choose|k: int| 0 <= k < prev.len() && prev[k] == j as usize;
                    assert(closed@[k] == j as usize);
                }
            }
        }
        i = i + 1;
    }
    closed
}

} // verus!
