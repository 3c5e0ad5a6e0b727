//! Which values a PBR material is drawn with: an entity's own overrides first,
//! then the material its mesh was loaded with, then the defaults. Colours and
//! factors are carried as the bit patterns of their `f32` values; textures are
//! shared handles `Arc<T>`.
use std::sync::Arc;

use vstd::prelude::*;

use crate::asset::arc_clone;
use crate::editor::data_types::FloatBits;
use crate::render::AlphaMode;

verus! {

/// The bits of `1.0f32`.
pub const ONE_BITS: FloatBits = 0x3f80_0000u32;

/// The bits of `0.5f32`.
pub const HALF_BITS: FloatBits = 0x3f00_0000u32;

/// The material a glTF primitive was loaded with.
pub struct GltfMaterial<T> {
    pub base_color_texture: Option<Arc<T>>,
    pub normal_texture: Option<Arc<T>>,
    pub color: [FloatBits; 4],
    pub roughness: FloatBits,
    pub metallic: FloatBits,
    pub reflectance: FloatBits,
    pub alpha_mode: AlphaMode,
}

impl<T> Default for GltfMaterial<T> {
    /// White, half rough, not metallic, not reflective, opaque, without textures.
    fn default() -> (material: Self)
        ensures
            material.base_color_texture is None,
            material.normal_texture is None,
            material.color@ == seq![ONE_BITS, ONE_BITS, ONE_BITS, ONE_BITS],
            material.roughness == HALF_BITS,
            material.metallic == 0,
            material.reflectance == 0,
            material.alpha_mode == AlphaMode::Opaque,
    {
        let material = GltfMaterial {
            base_color_texture: None,
            normal_texture: None,
            color: [ONE_BITS, ONE_BITS, ONE_BITS, ONE_BITS],
            roughness: HALF_BITS,
            metallic: 0,
            reflectance: 0,
            alpha_mode: AlphaMode::Opaque,
        };
        assert(material.color@ =~= seq![ONE_BITS, ONE_BITS, ONE_BITS, ONE_BITS]);
        material
    }
}

/// The values an entity sets on its material itself; the others come from its mesh.
pub struct PBRMaterial<T> {
    pub base_color_texture: Option<Arc<T>>,
    pub normal_texture: Option<Arc<T>>,
    pub color: Option<[FloatBits; 4]>,
    pub roughness: Option<FloatBits>,
    pub metallic: Option<FloatBits>,
    pub reflectance: Option<FloatBits>,
    pub alpha_mode: Option<AlphaMode>,
}

/// The material data uploaded to the uniform buffer.
#[derive(Clone, Copy)]
pub struct RawPBRMaterial {
    pub color: [FloatBits; 4],
    pub metallic: FloatBits,
    pub roughness: FloatBits,
    pub reflectance: FloatBits,
    pub padding: FloatBits,
}

/// `first` when set, else `second`.
pub open spec fn or_else<A>(first: Option<A>, second: Option<A>) -> Option<A> {
    if first is Some { first } else { second }
}

/// A factor: the entity's own, else the mesh material's, else zero.
pub open spec fn factor(own: Option<FloatBits>, mesh: Option<FloatBits>) -> FloatBits {
    match own {
        Some(v) => v,
        None => match mesh {
            Some(v) => v,
            None => 0,
        },
    }
}

fn clone_texture<T>(texture: &Option<Arc<T>>) -> (copy: Option<Arc<T>>)
    ensures
        copy == *texture,
{
    match texture {
        Some(t) => Some(arc_clone(t)),
        None => None,
    }
}

fn pick_factor(own: Option<FloatBits>, mesh: Option<FloatBits>) -> (value: FloatBits)
    ensures
        value == factor(own, mesh),
{
    match own {
        Some(v) => v,
        None => match mesh {
            Some(v) => v,
            None => 0,
        },
    }
}

/// The material an entity is drawn with. Textures, roughness, metallic and
/// reflectance are the entity's own when set, else those of its mesh's
/// material (`mesh_material`, the material of the mesh's first primitive),
/// else none or zero. The colour and the alpha mode are the entity's own when
/// set, else white and opaque: the mesh material's are not used for them.
pub fn material_for_upload<T>(overrides: &PBRMaterial<T>, mesh_material: Option<&GltfMaterial<T>>) -> (material: GltfMaterial<T>)
    ensures
        material.base_color_texture == or_else(overrides.base_color_texture, match mesh_material {
            Some(m) => m.base_color_texture,
            None => None,
        }),
        material.normal_texture == or_else(overrides.normal_texture, match mesh_material {
            Some(m) => m.normal_texture,
            None => None,
        }),
        material.roughness == factor(overrides.roughness, match mesh_material {
            Some(m) => Some(m.roughness),
            None => None,
        }),
        material.metallic == factor(overrides.metallic, match mesh_material {
            Some(m) => Some(m.metallic),
            None => None,
        }),
        material.reflectance == factor(overrides.reflectance, match mesh_material {
            Some(m) => Some(m.reflectance),
            None => None,
        }),
        material.color@ == match overrides.color {
            Some(c) => c@,
            None => seq![ONE_BITS, ONE_BITS, ONE_BITS, ONE_BITS],
        },
        material.alpha_mode == match overrides.alpha_mode {
            Some(a) => a,
            None => AlphaMode::Opaque,
        },
{
    let base_color_texture = if overrides.base_color_texture.is_some() {
        clone_texture(&overrides.base_color_texture)
    } else {
        match mesh_material {
            Some(m) => clone_texture(&m.base_color_texture),
            None => None,
        }
    };
    let normal_texture = if overrides.normal_texture.is_some() {
        clone_texture(&overrides.normal_texture)
    } else {
        match mesh_material {
            Some(m) => clone_texture(&m.normal_texture),
            None => None,
        }
    };
    let (roughness, metallic, reflectance) = match mesh_material {
        Some(m) => (
            pick_factor(overrides.roughness, Some(m.roughness)),
            pick_factor(overrides.metallic, Some(m.metallic)),
            pick_factor(overrides.reflectance, Some(m.reflectance)),
        ),
        None => (
            pick_factor(overrides.roughness, None),
            pick_factor(overrides.metallic, None),
            pick_factor(overrides.reflectance, None),
        ),
    };
    let color = match overrides.color {
        Some(c) => c,
        None => [ONE_BITS, ONE_BITS, ONE_BITS, ONE_BITS],
    };
    let alpha_mode = match overrides.alpha_mode {
        Some(a) => a,
        None => AlphaMode::Opaque,
    };
    let material = GltfMaterial {
        base_color_texture,
        normal_texture,
        color,
        roughness,
        metallic,
        reflectance,
        alpha_mode,
    };
    assert(overrides.color is None ==> material.color@ =~= seq![ONE_BITS, ONE_BITS, ONE_BITS, ONE_BITS]);
    material
}

/// The textures bound for a material: its base colour texture, else the plain
/// white one; its normal map, else the flat default one.
pub fn textures_for_binding<T>(material: &GltfMaterial<T>, white: &Arc<T>, flat_normal: &Arc<T>) -> (textures: (Arc<T>, Arc<T>))
    ensures
        textures.0 == match material.base_color_texture {
            Some(t) => t,
            None => *white,
        },
        textures.1 == match material.normal_texture {
            Some(t) => t,
            None => *flat_normal,
        },
{
    let base = match &material.base_color_texture {
        Some(t) => arc_clone(t),
        None => arc_clone(white),
    };
    let normal = match &material.normal_texture {
        Some(t) => arc_clone(t),
        None => arc_clone(flat_normal),
    };
    (base, normal)
}

impl RawPBRMaterial {
    /// The uniform data of a material: its colour and factors, with zero padding.
    pub fn from_material<T>(material: &GltfMaterial<T>) -> (raw: RawPBRMaterial)
        ensures
            raw.color == material.color,
            raw.metallic == material.metallic,
            raw.roughness == material.roughness,
            raw.reflectance == material.reflectance,
            raw.padding == 0,
    {
        RawPBRMaterial {
            color: material.color,
            metallic: material.metallic,
            roughness: material.roughness,
            reflectance: material.reflectance,
            padding: 0,
        }
    }
}

} // verus!
