//! The two intermediate textures that full-screen post-processing passes
//! ping-pong between.
use std::sync::Arc;

use vstd::prelude::*;

use crate::asset::arc_clone;

verus! {

/// Where in the frame a post-processing pass runs.
#[derive(Debug, Clone, Copy, PartialEq, Eq, Hash, Structural)]
pub enum RenderStage {
    BeforeOpaque,
    AfterOpaque,
    BeforeTransparent,
    AfterTransparent,
}

/// The intermediate textures of post-processing and the bind groups that
/// sample them: bind group 0 reads texture 0, bind group 1 reads texture 1.
pub struct PostProcessingManager<B, T> {
    bind_group_0: Arc<B>,
    bind_group_1: Arc<B>,
    temp_texture_0: Arc<T>,
    temp_texture_1: Arc<T>,
    temp_texture_index: usize,
}

impl<B, T> PostProcessingManager<B, T> {
    #[verifier::type_invariant]
    spec fn inv(self) -> bool {
        self.temp_texture_index < 2
    }

    /// Which texture holds the latest result: 0 or 1.
    pub closed spec fn index(self) -> nat {
        self.temp_texture_index as nat
    }

    /// The bind group that samples texture `i`.
    pub closed spec fn bind_group(self, i: nat) -> Arc<B> {
        if i == 0 { self.bind_group_0 } else { self.bind_group_1 }
    }

    /// Texture `i`.
    pub closed spec fn texture(self, i: nat) -> Arc<T> {
        if i == 0 { self.temp_texture_0 } else { self.temp_texture_1 }
    }

    /// Starts with texture 0 as the current source.
    pub fn new(bind_group_0: Arc<B>, bind_group_1: Arc<B>, temp_texture_0: Arc<T>, temp_texture_1: Arc<T>) -> (manager: Self)
        ensures
            manager.index() == 0,
            manager.bind_group(0) == bind_group_0,
            manager.bind_group(1) == bind_group_1,
            manager.texture(0) == temp_texture_0,
            manager.texture(1) == temp_texture_1,
    {
        PostProcessingManager { bind_group_0, bind_group_1, temp_texture_0, temp_texture_1, temp_texture_index: 0 }
    }

    /// The texture holding the latest result.
    pub fn get_current_source_texture(&self) -> (texture: Arc<T>)
        ensures
            texture == self.texture(self.index()),
    {
        match self.temp_texture_index {
            0 => arc_clone(&self.temp_texture_0),
            _ => arc_clone(&self.temp_texture_1),
        }
    }

    /// For the next pass: the bind group that samples the current source and
    /// the other texture as the target. The target becomes the current source.
    pub fn next_source_and_target(&mut self) -> (result: (Arc<B>, Arc<T>))
        ensures
            result.0 == old(self).bind_group(old(self).index()),
            result.1 == old(self).texture((old(self).index() + 1) % 2),
            final(self).index() == (old(self).index() + 1) % 2,
            forall|i: nat| #[trigger] final(self).texture(i) == old(self).texture(i),
            forall|i: nat| #[trigger] final(self).bind_group(i) == old(self).bind_group(i),
    {
        proof {
            use_type_invariant(&*self);
        }
        let ret = match self.temp_texture_index {
            0 => (arc_clone(&self.bind_group_0), arc_clone(&self.temp_texture_1)),
            _ => (arc_clone(&self.bind_group_1), arc_clone(&self.temp_texture_0)),
        };
        self.temp_texture_index = (self.temp_texture_index + 1) % 2;
        ret
    }

    /// Replaces the textures and bind groups after the render target was
    /// resized; which one is the current source stays.
    pub fn resize(&mut self, bind_group_0: Arc<B>, bind_group_1: Arc<B>, temp_texture_0: Arc<T>, temp_texture_1: Arc<T>)
        ensures
            final(self).index() == old(self).index(),
            final(self).bind_group(0) == bind_group_0,
            final(self).bind_group(1) == bind_group_1,
            final(self).texture(0) == temp_texture_0,
            final(self).texture(1) == temp_texture_1,
    {
        proof {
            use_type_invariant(&*self);
        }
        self.bind_group_0 = bind_group_0;
        self.bind_group_1 = bind_group_1;
        self.temp_texture_0 = temp_texture_0;
        self.temp_texture_1 = temp_texture_1;
    }
}

/// A pass reads the latest result and writes the other texture, which then
/// holds the latest result: the next pass reads what this one wrote, and a
/// pass never writes the texture it reads.
pub proof fn lemma_pass_reads_previous_target(index: nat)
    requires
        index < 2,
    ensures
        (index + 1) % 2 != index,
        ((index + 1) % 2 + 1) % 2 == index,
{
}

} // verus!
