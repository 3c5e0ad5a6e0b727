pub mod global_binding;
pub mod light;
pub mod light_order;
pub mod mipmap;
pub mod post_processing;
pub mod shadow_mapping;

use vstd::prelude::*;

verus! {

/// Size in pixels of the off-screen scene render target.
#[derive(Clone, Copy)]
pub struct RenderTargetSize {
    pub width: u32,
    pub height: u32,
}

impl Default for RenderTargetSize {
    /// The scene target starts at 512 x 512 pixels.
    fn default() -> (size: Self)
        ensures
            size.width == 512,
            size.height == 512,
    {
        RenderTargetSize { width: 512, height: 512 }
    }
}

/// Marks an object that is drawn by the opaque main pass.
#[derive(Clone, Copy)]
pub struct MainPassObject;

/// How a material's alpha channel is used when it is drawn.
#[derive(Debug, Clone, Copy, PartialEq, Eq, Structural)]
pub enum AlphaMode {
    Opaque,
    Mask,
    Blend,
}

/// Which of the two colour render targets is currently written to; the other
/// one is the sampleable copy of the previous frame.
pub struct ColorTargetIndex {
    index: usize,
}

impl ColorTargetIndex {
    #[verifier::type_invariant]
    spec fn inv(self) -> bool {
        self.index < 2
    }

    /// The index of the target currently written to: 0 or 1.
    pub closed spec fn value(self) -> nat {
        self.index as nat
    }

    /// Rendering starts by writing into target 0.
    pub fn new() -> (result: Self)
        ensures
            result.value() == 0,
    {
        ColorTargetIndex { index: 0 }
    }

    /// Swaps the roles of the two targets.
    pub fn switch(&mut self)
        ensures
            final(self).value() == (old(self).value() + 1) % 2,
    {
        proof {
            use_type_invariant(&*self);
        }
        self.index = (self.index + 1) % 2;
    }
}

/// The index the other target has when `index` is being written to.
pub open spec fn spec_sampleable_index(index: nat) -> nat {
    (index + 1) % 2
}

/// Index of the colour target that is written to this frame.
pub fn get_color_target_index(current: &ColorTargetIndex) -> (index: usize)
    ensures
        index == current.value(),
        index < 2,
{
    proof {
        use_type_invariant(current);
    }
    current.index
}

/// Index of the colour target that holds the previous result and can be sampled.
pub fn get_sampleable_target_index(current: &ColorTargetIndex) -> (index: usize)
    ensures
        index == spec_sampleable_index(current.value()),
        index < 2,
{
    proof {
        use_type_invariant(current);
    }
    (current.index + 1) % 2
}

/// The image in slot `i` of the ping-pong list, if the slot exists and holds one.
pub open spec fn slot<I>(images: Seq<Option<I>>, i: int) -> Option<I> {
    if 0 <= i < images.len() {
        images[i]
    } else {
        None
    }
}

/// The two colour render targets between which passes ping-pong.
pub struct ColorRenderTarget<I> {
    pub ping_pong: Vec<Option<I>>,
}

/// The image written to by the next pass, and the one holding the previous result.
pub struct PingPongImages<'a, I> {
    pub target: Option<&'a I>,
    pub sampleable: Option<&'a I>,
}

fn get_slot<I>(images: &Vec<Option<I>>, i: usize) -> (result: Option<&I>)
    ensures
        match result {
            Some(image) => slot(images@, i as int) == Some(*image),
            None => slot(images@, i as int) is None,
        },
{
    if i < images.len() {
        match &images[i] {
            Some(image) => Some(image),
            None => None,
        }
    } else {
        None
    }
}

impl<I> ColorRenderTarget<I> {
    /// A pair of targets, both present.
    pub fn new(a: I, b: I) -> (result: Self)
        ensures
            result.ping_pong@ == seq![Some(a), Some(b)],
    {
        let mut ping_pong: Vec<Option<I>> = Vec::new();
        ping_pong.push(Some(a));
        ping_pong.push(Some(b));
        ColorRenderTarget { ping_pong }
    }

    /// Puts new images, made at a new size, in both slots.
    pub fn update_images(&mut self, a: I, b: I)
        requires
            old(self).ping_pong@.len() >= 2,
        ensures
            final(self).ping_pong@ == old(self).ping_pong@.update(0, Some(a)).update(1, Some(b)),
    {
        self.ping_pong.set(0, Some(a));
        self.ping_pong.set(1, Some(b));
    }

    /// The target written to this frame.
    pub fn get_target(&self, current: &ColorTargetIndex) -> (result: Option<&I>)
        ensures
            match result {
                Some(image) => slot(self.ping_pong@, current.value() as int) == Some(*image),
                None => slot(self.ping_pong@, current.value() as int) is None,
            },
    {
        get_slot(&self.ping_pong, get_color_target_index(current))
    }

    /// The target holding the previous result.
    pub fn get_sampleable(&self, current: &ColorTargetIndex) -> (result: Option<&I>)
        ensures
            match result {
                Some(image) => slot(self.ping_pong@, spec_sampleable_index(current.value()) as int)
                    == Some(*image),
                None => slot(self.ping_pong@, spec_sampleable_index(current.value()) as int) is None,
            },
    {
        get_slot(&self.ping_pong, get_sampleable_target_index(current))
    }

    /// Swaps the two roles, then returns the new target and the new sampleable image.
    pub fn switch_and_get_images(&self, current: &mut ColorTargetIndex) -> (result: PingPongImages<'_, I>)
        ensures
            final(current).value() == spec_sampleable_index(old(current).value()),
            match result.target {
                Some(image) => slot(self.ping_pong@, final(current).value() as int) == Some(*image),
                None => slot(self.ping_pong@, final(current).value() as int) is None,
            },
            match result.sampleable {
                Some(image) => slot(self.ping_pong@, spec_sampleable_index(final(current).value()) as int)
                    == Some(*image),
                None => slot(self.ping_pong@, spec_sampleable_index(final(current).value()) as int) is None,
            },
    {
        current.switch();
        PingPongImages { target: self.get_target(current), sampleable: self.get_sampleable(current) }
    }
}

/// After a switch the target that is written to is the one that held the
/// previous result, and the previous target becomes the sampleable one; two
/// switches restore the roles they started with.
pub proof fn lemma_switch_swaps_roles(index: nat)
    requires
        index < 2,
    ensures
        spec_sampleable_index(index) != index,
        spec_sampleable_index(spec_sampleable_index(index)) == index,
        spec_sampleable_index(index) < 2,
{
}

/// The index written to after `n` switches from `start`, each switch taking an
/// index `v` to `(v + 1) % 2` as `ColorTargetIndex::switch` does.
pub open spec fn index_after_switches(start: nat, n: nat) -> nat
    decreases n,
{
    if n == 0 {
        start
    } else {
        (index_after_switches(start, (n - 1) as nat) + 1) % 2
    }
}

/// After `n` switches from the first frame's index 0 the target written to is
/// `n % 2`, and the sampleable one is the other.
pub proof fn lemma_index_after_switches(n: nat)
    ensures
        index_after_switches(0, n) == n % 2,
        spec_sampleable_index(index_after_switches(0, n)) == (n + 1) % 2,
    decreases n,
{
    if n > 0 {
        lemma_index_after_switches((n - 1) as nat);
    }
}

/// How the pixels of an image embedded in a glTF file are laid out.
#[derive(Debug, Clone, Copy, PartialEq, Eq, Structural)]
pub enum GltfPixelFormat {
    R8,
    R8G8,
    R8G8B8,
    R8G8B8A8,
    R16,
    R16G16,
    R16G16B16,
    R16G16B16A16,
    R32G32B32FLOAT,
    R32G32B32A32FLOAT,
}

/// Tightly packed RGB texels widened to RGBA, with the fourth byte of every
/// texel set to 0; a trailing partial texel is dropped.
pub open spec fn spec_rgb_to_rgba(pixels: Seq<u8>) -> Seq<u8> {
    Seq::new(
        pixels.len() / 3 * 4,
        |i: int|
            if i % 4 != 3 {
                pixels[(i / 4) * 3 + i % 4]
            } else {
                0u8
            },
    )
}

/// The texel bytes uploaded for an image embedded in a glTF file: RGB images
/// are widened to four bytes per texel, every other layout is uploaded as it is.
pub open spec fn spec_glb_upload_pixels(format: GltfPixelFormat, pixels: Seq<u8>) -> Seq<u8> {
    match format {
        GltfPixelFormat::R8G8B8 => spec_rgb_to_rgba(pixels),
        _ => pixels,
    }
}

proof fn lemma_rgb_index(i: int, len: int)
    requires
        0 <= i < len / 3 * 4,
        i % 4 != 3,
        len >= 0,
    ensures
        0 <= (i / 4) * 3 + i % 4 < len,
{
    assert(0 <= (i / 4) * 3 + i % 4 < len) by (nonlinear_arith)
        requires
            0 <= i < len / 3 * 4,
            i % 4 != 3,
            len >= 0,
    ;
}

/// The texel bytes to upload for an image embedded in a glTF file.
pub fn glb_upload_pixels(format: GltfPixelFormat, pixels: &[u8]) -> (result: Vec<u8>)
    requires
        pixels@.len() / 3 * 4 <= usize::MAX,
    ensures
        result@ == spec_glb_upload_pixels(format, pixels@),
{
    match format {
        GltfPixelFormat::R8G8B8 => {
            let new_len = pixels.len() / 3 * 4;
            let mut ret: Vec<u8> = Vec::with_capacity(new_len);
            let mut i: usize = 0;
            while i < new_len
                invariant
                    new_len == pixels@.len() / 3 * 4,
                    i <= new_len,
                    ret@ =~= spec_rgb_to_rgba(pixels@).take(i as int),
                decreases new_len - i,
            {
                let divide = i / 4;
                let modulo = i % 4;
                let value = if modulo != 3 {
                    proof {
                        lemma_rgb_index(i as int, pixels@.len() as int);
                    }
                    pixels[divide * 3 + modulo]
                } else {
                    0u8
                };
                ret.push(value);
                i = i + 1;
            }
            ret
        },
        _ => {
            let mut copy: Vec<u8> = Vec::with_capacity(pixels.len());
            let mut i: usize = 0;
            while i < pixels.len()
                invariant
                    i <= pixels@.len(),
                    copy@ =~= pixels@.take(i as int),
                decreases pixels@.len() - i,
            {
                copy.push(pixels[i]);
                i = i + 1;
            }
            assert(pixels@.take(pixels@.len() as int) =~= pixels@);
            copy
        },
    }
}

} // verus!
pub mod material_registry;
pub mod pbr_material;
