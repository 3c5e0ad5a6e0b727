//! The main pass's global bind groups, one per colour target it may sample.
use std::sync::Arc;

use vstd::prelude::*;

use crate::render::{get_sampleable_target_index, spec_sampleable_index, ColorTargetIndex};

verus! {

/// Bind group `i` exposes colour target `i` (with the frame's shared buffers)
/// to the main pass.
pub struct GlobalBindGroup<G> {
    pub bind_groups: Vec<Arc<G>>,
}

impl<G> GlobalBindGroup<G> {
    /// The bind group that samples the colour target holding the previous result.
    pub fn get_bind_group(&self, current: &ColorTargetIndex) -> (group: &Arc<G>)
        requires
            spec_sampleable_index(current.value()) < self.bind_groups@.len(),
        ensures
            *group == self.bind_groups@[spec_sampleable_index(current.value()) as int],
    {
        &self.bind_groups[get_sampleable_target_index(current)]
    }
}

} // verus!
