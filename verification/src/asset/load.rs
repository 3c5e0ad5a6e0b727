//! Decoding textures and assembling models: the computations of asset loading
//! that come before anything is uploaded to the GPU.
use vstd::prelude::*;

use crate::render::AlphaMode;

verus! {

/// The pixel layout of a decoded image.
#[derive(Debug, Clone, Copy, PartialEq, Eq, Structural)]
pub enum ColorType {
    L8,
    La8,
    Rgb8,
    Rgba8,
    L16,
    La16,
    Rgb16,
    Rgba16,
    Rgb32F,
    Rgba32F,
    /// A layout that this library does not know.
    Other,
}

/// Whether the layout has an alpha channel.
pub open spec fn spec_has_alpha(color: ColorType) -> bool {
    match color {
        ColorType::La8 | ColorType::La16 | ColorType::Rgba8 | ColorType::Rgba16
        | ColorType::Rgba32F => true,
        _ => false,
    }
}

/// Whether an image of this layout can be transparent at all.
pub fn has_alpha(color: ColorType) -> (result: bool)
    ensures
        result == spec_has_alpha(color),
{
    match color {
        ColorType::La8 | ColorType::La16 | ColorType::Rgba8 | ColorType::Rgba16
        | ColorType::Rgba32F => true,
        _ => false,
    }
}

/// Whether one of the first `pixel_count` RGBA texels of `rgba` is not fully opaque.
pub open spec fn spec_any_pixel_transparent(rgba: Seq<u8>, pixel_count: nat) -> bool {
    exists|i: int| 0 <= i < pixel_count && #[trigger] rgba[4 * i + 3] < 255
}

/// Whether one of the first `pixel_count` texels of the RGBA bytes has an alpha below 255.
pub fn is_any_pixel_transparent(rgba: &[u8], pixel_count: usize) -> (result: bool)
    requires
        4 * pixel_count <= rgba@.len(),
    ensures
        result == spec_any_pixel_transparent(rgba@, pixel_count as nat),
{
    let n = rgba.len();
    let mut i: usize = 0;
    while i < pixel_count
        invariant
            n == rgba@.len(),
            i <= pixel_count,
            4 * pixel_count <= rgba@.len(),
            forall|j: int| 0 <= j < i ==> #[trigger] rgba@[4 * j + 3] >= 255,
        decreases pixel_count - i,
    {
        if rgba[4 * i + 3] < 255 {
            return true;
        }
        i = i + 1;
    }
    false
}

/// What `image::load_from_memory` followed by `DynamicImage::to_rgba8` gives for
/// the bytes of an image file: the pixel layout it decoded to, the RGBA bytes,
/// the width and the height; or the decoder's error message.
pub uninterp spec fn image_decoding(data: Seq<u8>) -> Result<(ColorType, Seq<u8>, u32, u32), Seq<char>>;

/// The view of a decoding result.
pub open spec fn decoding_view(result: Result<(ColorType, Vec<u8>, u32, u32), String>) -> Result<(ColorType, Seq<u8>, u32, u32), Seq<char>> {
    match result {
        Ok(d) => Ok((d.0, d.1@, d.2, d.3)),
        Err(e) => Err(e@),
    }
}

/// `image::load_from_memory`, then `DynamicImage::color` (told apart variant by
/// variant) and `DynamicImage::to_rgba8`: decodes an image file held in memory,
/// guessing its format from its content. The result is named by
/// `image_decoding`; an `ImageBuffer` always holds at least four bytes for each
/// of its `width * height` RGBA texels.
#[verifier::external_body]
pub(crate) fn decode_image(data: &[u8]) -> (result: Result<(ColorType, Vec<u8>, u32, u32), String>)
    ensures
        decoding_view(result) == image_decoding(data@),
        result matches Ok(d) ==> d.1@.len() >= 4 * d.2 * d.3,
{
    let img = match image::load_from_memory(data) {
        Ok(img) => img,
        Err(e) => return Err(e.to_string()),
    };
    let color = match img.color() {
        image::ColorType::L8 => ColorType::L8, image::ColorType::La8 => ColorType::La8,
        image::ColorType::Rgb8 => ColorType::Rgb8, image::ColorType::Rgba8 => ColorType::Rgba8,
        image::ColorType::L16 => ColorType::L16, image::ColorType::La16 => ColorType::La16,
        image::ColorType::Rgb16 => ColorType::Rgb16, image::ColorType::Rgba16 => ColorType::Rgba16,
        image::ColorType::Rgb32F => ColorType::Rgb32F, image::ColorType::Rgba32F => ColorType::Rgba32F,
        _ => ColorType::Other,
    };
    let rgba = img.to_rgba8();
    let (width, height) = rgba.dimensions();
    Ok((color, rgba.into_raw(), width, height))
}

/// A texture decoded into 8-bit RGBA texels, ready to be uploaded.
pub struct DecodedTexture {
    pub width: u32,
    pub height: u32,
    /// The RGBA bytes, row by row; at least `4 * width * height` of them.
    pub rgba: Vec<u8>,
    /// The pixel layout the file was decoded to, before the RGBA conversion.
    pub color: ColorType,
    /// Whether the texture needs blending: its layout has alpha and some texel is not opaque.
    pub is_transparent: bool,
}

/// A texture is transparent when its layout has an alpha channel and one of its texels is not opaque.
pub open spec fn spec_texture_transparent(color: ColorType, rgba: Seq<u8>, width: u32, height: u32) -> bool {
    spec_has_alpha(color) && spec_any_pixel_transparent(rgba, (width * height) as nat)
}

/// The texture made of a decoded image: its texels, and whether it is transparent.
pub fn texture_from_decoded(color: ColorType, rgba: Vec<u8>, width: u32, height: u32) -> (texture: DecodedTexture)
    requires
        rgba@.len() >= 4 * width * height,
    ensures
        texture.color == color,
        texture.rgba@ == rgba@,
        texture.width == width,
        texture.height == height,
        texture.is_transparent == spec_texture_transparent(color, rgba@, width, height),
{
    let n = rgba.len();
    assert(width as int * height as int <= n) by (nonlinear_arith)
        requires
            n >= 4 * width * height,
    ;
    let pixel_count: usize = width as usize * height as usize;
    assert(4 * pixel_count <= rgba@.len()) by (nonlinear_arith)
        requires
            pixel_count == width as int * height as int,
            rgba@.len() >= 4 * width * height,
    ;
    let is_transparent = has_alpha(color) && is_any_pixel_transparent(rgba.as_slice(), pixel_count);
    DecodedTexture { width, height, rgba, color, is_transparent }
}

/// Decodes a texture file held in memory into RGBA texels and tells whether it
/// is transparent. Fails with the decoder's message when the bytes are not an
/// image of a supported format.
pub fn load_texture_from_memory(data: &[u8]) -> (result: Result<DecodedTexture, String>)
    ensures
        match image_decoding(data@) {
            Ok(d) => result matches Ok(t) && {
                &&& t.color == d.0
                &&& t.rgba@ == d.1
                &&& t.width == d.2
                &&& t.height == d.3
                &&& t.rgba@.len() >= 4 * t.width * t.height
                &&& t.is_transparent == spec_texture_transparent(d.0, d.1, d.2, d.3)
            },
            Err(m) => result matches Err(e) && e@ == m,
        },
{
    match decode_image(data) {
        Ok((color, rgba, width, height)) => Ok(texture_from_decoded(color, rgba, width, height)),
        Err(e) => Err(e),
    }
}

/// Whether a model file is read as glTF text or as binary glTF.
#[derive(Debug, Clone, Copy, PartialEq, Eq, Structural)]
pub enum ModelFileKind {
    Gltf,
    Glb,
}

/// `str::ends_with`: whether `suffix` is the tail of `s`.
#[verifier::external_body]
fn str_ends_with(s: &str, suffix: &str) -> (result: bool)
    ensures
        result == (suffix@.len() <= s@.len() && s@.subrange(s@.len() - suffix@.len(), s@.len() as int)
            == suffix@),
{
    s.ends_with(suffix)
}

/// Whether `s` ends with `suffix`.
pub open spec fn has_suffix(s: Seq<char>, suffix: Seq<char>) -> bool {
    suffix.len() <= s.len() && s.subrange(s.len() - suffix.len(), s.len() as int) == suffix
}

/// How a model file is read, by its extension: `.gltf` first, then `.glb`;
/// anything else is not a model file.
pub open spec fn spec_model_file_kind(path: Seq<char>) -> Result<ModelFileKind, Seq<char>> {
    if has_suffix(path, ".gltf"@) {
        Ok(ModelFileKind::Gltf)
    } else if has_suffix(path, ".glb"@) {
        Ok(ModelFileKind::Glb)
    } else {
        Err("<"@ + path + "> is not a model file (.gltf or .glb)!"@)
    }
}

/// Decides how the model file at `path` is read, or why it cannot be.
pub fn model_file_kind(path: &str) -> (result: Result<ModelFileKind, String>)
    ensures
        match result {
            Ok(k) => spec_model_file_kind(path@) == Ok::<ModelFileKind, Seq<char>>(k),
            Err(e) => spec_model_file_kind(path@) == Err::<ModelFileKind, Seq<char>>(e@),
        },
{
    if str_ends_with(path, ".gltf") {
        Ok(ModelFileKind::Gltf)
    } else if str_ends_with(path, ".glb") {
        Ok(ModelFileKind::Glb)
    } else {
        let mut message = "<".to_string();
        message.append(path);
        message.append("> is not a model file (.gltf or .glb)!");
        Err(message)
    }
}

/// The alpha mode of a glTF material: blended when its base colour texture is
/// transparent, opaque otherwise or without such a texture.
pub fn alpha_mode_for_base_color(base_color_transparent: Option<bool>) -> (mode: AlphaMode)
    ensures
        mode == (if base_color_transparent == Some(true) {
            AlphaMode::Blend
        } else {
            AlphaMode::Opaque
        }),
{
    match base_color_transparent {
        Some(true) => AlphaMode::Blend,
        _ => AlphaMode::Opaque,
    }
}

/// Appends one primitive's indices to the mesh's index list and returns where
/// they start in it and how many there are, both as `u32` (truncated, as the
/// index buffer records them).
pub fn append_primitive_indices(indices: &mut Vec<u32>, primitive_indices: Vec<u32>) -> (range: (u32, u32))
    requires
        old(indices)@.len() + primitive_indices@.len() <= usize::MAX,
    ensures
        final(indices)@ == old(indices)@ + primitive_indices@,
        range.0 == old(indices)@.len() as u32,
        range.1 == primitive_indices@.len() as u32,
{
    let start = indices.len() as u32;
    let count = primitive_indices.len() as u32;
    let mut i: usize = 0;
    let ghost before = indices@;
    while i < primitive_indices.len()
        invariant
            i <= primitive_indices@.len(),
            indices@ =~= before + primitive_indices@.take(i as int),
        decreases primitive_indices@.len() - i,
    {
        indices.push(primitive_indices[i]);
        i = i + 1;
    }
    assert(primitive_indices@.take(primitive_indices@.len() as int) =~= primitive_indices@);
    (start, count)
}

/// The index lists of a mesh's primitives, one after the other.
pub open spec fn all_indices(lists: Seq<Seq<u32>>) -> Seq<u32>
    decreases lists.len(),
{
    if lists.len() == 0 {
        Seq::empty()
    } else {
        all_indices(lists.drop_last()) + lists.last()
    }
}

/// The views of a list of index lists.
pub open spec fn index_lists_view(lists: Seq<Vec<u32>>) -> Seq<Seq<u32>> {
    lists.map_values(|v: Vec<u32>| v@)
}

proof fn lemma_all_indices_prefix(lists: Seq<Seq<u32>>, k: int)
    requires
        0 <= k <= lists.len(),
    ensures
        all_indices(lists.take(k)).len() <= all_indices(lists).len(),
    decreases lists.len(),
{
    if k < lists.len() {
        assert(lists.drop_last().take(k) =~= lists.take(k));
        lemma_all_indices_prefix(lists.drop_last(), k);
    } else {
        assert(lists.take(k) =~= lists);
    }
}

/// The index buffer of a mesh and the range of each primitive in it: the
/// primitives' indices one after the other, and for each primitive where its
/// indices start and how many there are (as `u32`, truncated, as the index
/// buffer records them).
pub fn assemble_mesh_indices(primitive_indices: &Vec<Vec<u32>>) -> (mesh: (Vec<u32>, Vec<(u32, u32)>))
    requires
        all_indices(index_lists_view(primitive_indices@)).len() <= usize::MAX,
    ensures
        mesh.0@ == all_indices(index_lists_view(primitive_indices@)),
        mesh.1@.len() == primitive_indices@.len(),
        forall|k: int|
            0 <= k < primitive_indices@.len() ==> #[trigger] mesh.1@[k] == (
                all_indices(index_lists_view(primitive_indices@).take(k)).len() as u32,
                primitive_indices@[k]@.len() as u32,
            ),
{
    let ghost lists = index_lists_view(primitive_indices@);
    let mut indices: Vec<u32> = Vec::new();
    let mut ranges: Vec<(u32, u32)> = Vec::new();
    let mut k: usize = 0;
    while k < primitive_indices.len()
        invariant
            k <= primitive_indices@.len(),
            lists == index_lists_view(primitive_indices@),
            all_indices(lists).len() <= usize::MAX,
            indices@ == all_indices(lists.take(k as int)),
            ranges@.len() == k,
            forall|j: int|
                0 <= j < k ==> #[trigger] ranges@[j] == (
                    all_indices(lists.take(j)).len() as u32,
                    primitive_indices@[j]@.len() as u32,
                ),
        decreases primitive_indices@.len() - k,
    {
        proof {
            assert(lists.take(k + 1).drop_last() =~= lists.take(k as int));
            assert(lists.take(k + 1).last() == primitive_indices@[k as int]@);
            lemma_all_indices_prefix(lists, k + 1);
        }
        let mut own: Vec<u32> = Vec::new();
        let source = &primitive_indices[k];
        let mut i: usize = 0;
        while i < source.len()
            invariant
                i <= source@.len(),
                own@ =~= source@.take(i as int),
            decreases source@.len() - i,
        {
            own.push(source[i]);
            i = i + 1;
        }
        assert(own@ =~= source@);
        let range = append_primitive_indices(&mut indices, own);
        ranges.push(range);
        k = k + 1;
    }
    proof {
        assert(lists.take(k as int) =~= lists);
    }
    (indices, ranges)
}

/// The number of channels of a pixel layout (0 for one this library does not know).
pub open spec fn channel_count(color: ColorType) -> nat {
    match color {
        ColorType::L8 | ColorType::L16 => 1,
        ColorType::La8 | ColorType::La16 => 2,
        ColorType::Rgb8 | ColorType::Rgb16 | ColorType::Rgb32F => 3,
        ColorType::Rgba8 | ColorType::Rgba16 | ColorType::Rgba32F => 4,
        ColorType::Other => 0,
    }
}

/// A layout has alpha exactly when it carries an alpha channel, that is when it
/// has two channels (luminance and alpha) or four (red, green, blue and alpha),
/// whatever the channels' width; so a decoded image of such a layout with a
/// texel whose alpha is below 255 is transparent.
pub proof fn lemma_alpha_layouts(color: ColorType, rgba: Seq<u8>, width: u32, height: u32, i: int)
    ensures
        spec_has_alpha(color) <==> (channel_count(color) == 2 || channel_count(color) == 4),
        (channel_count(color) == 2 || channel_count(color) == 4) && 0 <= i < width * height && rgba[4 * i + 3] < 255
            ==> spec_texture_transparent(color, rgba, width, height),
{
    if 0 <= i < width * height && rgba[4 * i + 3] < 255 {
        assert(spec_any_pixel_transparent(rgba, (width * height) as nat));
    }
}

/// A texture whose decoded layout carries an alpha channel and one of whose
/// texels has an alpha below 255 is loaded as transparent.
pub proof fn lemma_loaded_alpha_texture_is_transparent(data: Seq<u8>, i: int)
    ensures
        image_decoding(data) matches Ok(d) ==> (
            (channel_count(d.0) == 2 || channel_count(d.0) == 4) && 0 <= i < d.2 * d.3 && d.1[4 * i + 3] < 255
                ==> spec_texture_transparent(d.0, d.1, d.2, d.3)
        ),
{
    if image_decoding(data) is Ok {
        let d = image_decoding(data)->Ok_0;
        lemma_alpha_layouts(d.0, d.1, d.2, d.3, i);
    }
}

} // verus!
