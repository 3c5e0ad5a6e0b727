//! The cached state of a texture preview and its array-layer browsing.
use vstd::prelude::*;

verus! {

/// Cached state for previewing a texture: the GUI texture id and the view of
/// the selected array layer (`I` and `V`), and the selected layer.
pub struct TexturePreview<I, V> {
    pub egui_tex_id: Option<I>,
    pub cached_view: Option<V>,
    pub cached_layer: u32,
}

impl<I, V> TexturePreview<I, V> {
    /// Nothing cached, layer 0.
    pub fn new() -> (preview: Self)
        ensures
            preview.egui_tex_id is None,
            preview.cached_view is None,
            preview.cached_layer == 0,
    {
        TexturePreview { egui_tex_id: None, cached_view: None, cached_layer: 0 }
    }

    /// Drops the cached id and view; the next display registers them again.
    pub fn invalidate(&mut self)
        ensures
            final(self).egui_tex_id is None,
            final(self).cached_view is None,
            final(self).cached_layer == old(self).cached_layer,
    {
        self.egui_tex_id = None;
        self.cached_view = None;
    }

    /// When the texture shrank below the selected layer, goes back to layer 0
    /// and drops the cache.
    pub fn clamp_layer(&mut self, total_layers: u32)
        ensures
            old(self).cached_layer >= total_layers ==> final(self).cached_layer == 0
                && final(self).egui_tex_id is None && final(self).cached_view is None,
            old(self).cached_layer < total_layers ==> final(self).cached_layer == old(self).cached_layer
                && final(self).egui_tex_id == old(self).egui_tex_id && final(self).cached_view
                == old(self).cached_view,
    {
        if self.cached_layer >= total_layers {
            self.cached_layer = 0;
            self.invalidate();
        }
    }

    /// The "previous layer" button: enabled above layer 0; when enabled it
    /// selects the layer below and drops the cache. Returns whether it was enabled.
    pub fn select_previous_layer(&mut self) -> (enabled: bool)
        ensures
            enabled == (old(self).cached_layer > 0),
            enabled ==> final(self).cached_layer == old(self).cached_layer - 1
                && final(self).egui_tex_id is None && final(self).cached_view is None,
            !enabled ==> final(self).cached_layer == old(self).cached_layer
                && final(self).egui_tex_id == old(self).egui_tex_id && final(self).cached_view
                == old(self).cached_view,
    {
        if self.cached_layer > 0 {
            self.cached_layer = self.cached_layer - 1;
            self.invalidate();
            true
        } else {
            false
        }
    }

    /// The "next layer" button: enabled below the last of `total_layers`;
    /// when enabled it selects the layer above and drops the cache. Returns
    /// whether it was enabled.
    pub fn select_next_layer(&mut self, total_layers: u32) -> (enabled: bool)
        ensures
            enabled == (old(self).cached_layer + 1 < total_layers),
            enabled ==> final(self).cached_layer == old(self).cached_layer + 1
                && final(self).egui_tex_id is None && final(self).cached_view is None,
            !enabled ==> final(self).cached_layer == old(self).cached_layer
                && final(self).egui_tex_id == old(self).egui_tex_id && final(self).cached_view
                == old(self).cached_view,
    {
        if (self.cached_layer as u64) + 1 < total_layers as u64 {
            self.cached_layer = self.cached_layer + 1;
            self.invalidate();
            true
        } else {
            false
        }
    }
}

/// Whether a texture of this size is drawn: one without width or height is
/// reported as a zero-size texture instead.
pub fn texture_has_area(width: u32, height: u32) -> (drawn: bool)
    ensures
        drawn == (width != 0 && height != 0),
{
    width != 0 && height != 0
}

} // verus!
