use std::cell::Cell;
use wgpu_pbr::render::material_registry::{BufferMaterialManager, MaterialError, MaterialManager};

#[test]
fn material_layout_is_registered_once() {
    let made = Cell::new(0);
    let mut manager: MaterialManager<&str> = MaterialManager::new();
    assert_eq!(manager.registered_layout(1).err(), Some(MaterialError::LayoutNotFound));
    let layout = manager.register(1, || {
        made.set(made.get() + 1);
        "pbr"
    });
    assert_eq!(*layout.unwrap(), "pbr");
    assert_eq!(made.get(), 1);
    let again = manager.register(1, || {
        made.set(made.get() + 1);
        "other"
    });
    assert_eq!(again.err(), Some(MaterialError::AlreadyRegistered));
    assert_eq!(made.get(), 1);
    assert_eq!(*manager.registered_layout(1).unwrap(), "pbr");
    assert_eq!(manager.registered_layout(2).err(), Some(MaterialError::LayoutNotFound));
}

#[test]
fn buffer_material_layouts_are_kept_per_type() {
    let mut manager: BufferMaterialManager<u32> = BufferMaterialManager::new();
    assert_eq!(*manager.register(7, || 70).unwrap(), 70);
    assert_eq!(*manager.register(8, || 80).unwrap(), 80);
    assert_eq!(*manager.registered_layout(7).unwrap(), 70);
    assert_eq!(*manager.registered_layout(8).unwrap(), 80);
}

#[test]
fn registries_store_layout_entries() {
    let mut manager: MaterialManager<u8> = MaterialManager::new();
    manager.register(3, || 30).unwrap();
    assert_eq!(*manager.map[&3].layout, 30);
    let mut buffers: BufferMaterialManager<u8> = BufferMaterialManager::new();
    assert_eq!(buffers.registered_layout(3).err(), Some(MaterialError::LayoutNotFound));
    buffers.register(3, || 31).unwrap();
    assert_eq!(*buffers.map[&3].layout, 31);
    assert_eq!(buffers.register(3, || 32).err(), Some(MaterialError::AlreadyRegistered));
}

use std::sync::Arc;
use wgpu_pbr::render::pbr_material::{
    material_for_upload, textures_for_binding, GltfMaterial, PBRMaterial, RawPBRMaterial, HALF_BITS, ONE_BITS,
};
use wgpu_pbr::render::AlphaMode;

fn no_overrides() -> PBRMaterial<&'static str> {
    PBRMaterial {
        base_color_texture: None,
        normal_texture: None,
        color: None,
        roughness: None,
        metallic: None,
        reflectance: None,
        alpha_mode: None,
    }
}

#[test]
fn gltf_material_defaults() {
    let m: GltfMaterial<&str> = GltfMaterial::default();
    assert!(m.base_color_texture.is_none() && m.normal_texture.is_none());
    assert_eq!(m.color.map(f32::from_bits), [1.0; 4]);
    assert_eq!(f32::from_bits(m.roughness), 0.5);
    assert_eq!(f32::from_bits(m.metallic), 0.0);
    assert_eq!(f32::from_bits(m.reflectance), 0.0);
    assert_eq!(m.alpha_mode, AlphaMode::Opaque);
    assert_eq!(f32::from_bits(ONE_BITS), 1.0);
    assert_eq!(f32::from_bits(HALF_BITS), 0.5);
}

#[test]
fn overrides_come_before_the_mesh_material() {
    let albedo = Arc::new("albedo");
    let mut mesh: GltfMaterial<&str> = GltfMaterial::default();
    mesh.base_color_texture = Some(albedo.clone());
    mesh.roughness = 0.25f32.to_bits();
    mesh.metallic = 0.75f32.to_bits();
    mesh.color = [0.5f32.to_bits(); 4];
    mesh.alpha_mode = AlphaMode::Blend;

    let m = material_for_upload(&no_overrides(), Some(&mesh));
    assert_eq!(*m.base_color_texture.unwrap(), "albedo");
    assert!(m.normal_texture.is_none());
    assert_eq!(f32::from_bits(m.roughness), 0.25);
    assert_eq!(f32::from_bits(m.metallic), 0.75);
    assert_eq!(f32::from_bits(m.reflectance), 0.0);
    assert_eq!(m.color, [ONE_BITS; 4]);
    assert_eq!(m.alpha_mode, AlphaMode::Opaque);

    let mut own = no_overrides();
    own.normal_texture = Some(Arc::new("bumps"));
    own.roughness = Some(0.9f32.to_bits());
    own.color = Some([0u32; 4]);
    own.alpha_mode = Some(AlphaMode::Mask);
    let m = material_for_upload(&own, Some(&mesh));
    assert_eq!(*m.base_color_texture.unwrap(), "albedo");
    assert_eq!(*m.normal_texture.unwrap(), "bumps");
    assert_eq!(f32::from_bits(m.roughness), 0.9);
    assert_eq!(f32::from_bits(m.metallic), 0.75);
    assert_eq!(m.color, [0u32; 4]);
    assert_eq!(m.alpha_mode, AlphaMode::Mask);

    let m = material_for_upload(&own, None);
    assert!(m.base_color_texture.is_none());
    assert_eq!(f32::from_bits(m.metallic), 0.0);
}

#[test]
fn missing_textures_fall_back_to_defaults() {
    let white = Arc::new("white");
    let flat = Arc::new("flat");
    let mut m: GltfMaterial<&str> = GltfMaterial::default();
    let (base, normal) = textures_for_binding(&m, &white, &flat);
    assert_eq!((*base, *normal), ("white", "flat"));
    m.normal_texture = Some(Arc::new("bumps"));
    let (base, normal) = textures_for_binding(&m, &white, &flat);
    assert_eq!((*base, *normal), ("white", "bumps"));
    m.reflectance = 0.125f32.to_bits();
    let raw = RawPBRMaterial::from_material(&m);
    assert_eq!(raw.color, [ONE_BITS; 4]);
    assert_eq!(f32::from_bits(raw.roughness), 0.5);
    assert_eq!(f32::from_bits(raw.reflectance), 0.125);
    assert_eq!(raw.padding, 0);
}
