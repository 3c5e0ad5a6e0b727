use wgpu_pbr::asset::load::{
    alpha_mode_for_base_color, append_primitive_indices, assemble_mesh_indices, model_file_kind, ModelFileKind,
};
use std::collections::BTreeMap;
use wgpu_pbr::material::outline::jump_flood_steps;
use wgpu_pbr::material::outline_groups::group_outlines;
use wgpu_pbr::material::outline_layers::retain_outline_types;
use wgpu_pbr::render::light::DynamicLights;
use wgpu_pbr::render::mipmap::calculate_mip_level_count;
use wgpu_pbr::render::shadow_mapping::CastShadow;
use wgpu_pbr::render::{
    get_color_target_index, get_sampleable_target_index, glb_upload_pixels, AlphaMode,
    ColorRenderTarget, ColorTargetIndex, GltfPixelFormat, MainPassObject, RenderTargetSize,
};

#[test]
fn mip_level_count_is_one_plus_floor_log2_of_largest_side() {
    assert_eq!(calculate_mip_level_count(&[1024u32, 512]), 11);
    assert_eq!(calculate_mip_level_count(&[512u32, 1000]), 10);
    assert_eq!(calculate_mip_level_count(&[1u32, 1, 1]), 1);
    assert_eq!(calculate_mip_level_count(&[0u32, 0]), 1);
    assert_eq!(calculate_mip_level_count::<0>(&[]), 1);
    assert_eq!(calculate_mip_level_count(&[3u32]), 2);
    assert_eq!(calculate_mip_level_count(&[u32::MAX]), 33);
}

#[test]
fn mip_level_count_follows_f32_log2_near_powers_of_two() {
    for max in [1u32, 2, 3, 255, 256, 1 << 20, (1 << 21) - 1, 16777204, 16777205, 16777215, 4294964352, 4294964353] {
        let expected = 1 + (max as f32).log2() as u32;
        assert_eq!(calculate_mip_level_count(&[max, 0]), expected, "{max}");
    }
    assert_eq!(calculate_mip_level_count(&[16777215u32]), 25);
    assert_eq!(calculate_mip_level_count(&[16777204u32]), 24);
    assert_eq!(calculate_mip_level_count(&[2097150u32]), 21);
    assert_eq!(calculate_mip_level_count(&[2097151u32]), 22);
}

#[test]
fn ping_pong_indices_alternate() {
    let mut index = ColorTargetIndex::new();
    assert_eq!(get_color_target_index(&index), 0);
    assert_eq!(get_sampleable_target_index(&index), 1);
    index.switch();
    assert_eq!(get_color_target_index(&index), 1);
    assert_eq!(get_sampleable_target_index(&index), 0);
    index.switch();
    assert_eq!(get_color_target_index(&index), 0);
}

#[test]
fn switch_swaps_target_and_sampleable() {
    let target = ColorRenderTarget::new("a", "b");
    let mut index = ColorTargetIndex::new();
    assert_eq!(target.get_target(&index), Some(&"a"));
    assert_eq!(target.get_sampleable(&index), Some(&"b"));
    let images = target.switch_and_get_images(&mut index);
    assert_eq!(images.target, Some(&"b"));
    assert_eq!(images.sampleable, Some(&"a"));
    let images = target.switch_and_get_images(&mut index);
    assert_eq!(images.target, Some(&"a"));
    assert_eq!(images.sampleable, Some(&"b"));

    let missing = ColorRenderTarget::<u8> { ping_pong: vec![None, Some(7)] };
    let index = ColorTargetIndex::new();
    assert_eq!(missing.get_target(&index), None);
    assert_eq!(missing.get_sampleable(&index), Some(&7));
    let short = ColorRenderTarget::<u8> { ping_pong: vec![Some(1)] };
    assert_eq!(short.get_sampleable(&index), None);
}

#[test]
fn render_target_defaults_and_markers() {
    let size = RenderTargetSize::default();
    assert_eq!((size.width, size.height), (512, 512));
    let _ = MainPassObject;
    let _ = CastShadow::default();
    assert_ne!(AlphaMode::Opaque, AlphaMode::Blend);
}

#[test]
fn rgb_pixels_are_widened_with_zero_alpha() {
    let rgb = [1u8, 2, 3, 4, 5, 6, 7];
    assert_eq!(glb_upload_pixels(GltfPixelFormat::R8G8B8, &rgb), vec![1, 2, 3, 0, 4, 5, 6, 0]);
    assert_eq!(glb_upload_pixels(GltfPixelFormat::R8G8B8A8, &rgb), rgb.to_vec());
    assert!(glb_upload_pixels(GltfPixelFormat::R8G8B8, &[9, 9]).is_empty());
}

#[test]
fn jump_flood_steps_halve_to_one() {
    assert_eq!(jump_flood_steps(1920, 1080), vec![1024, 512, 256, 128, 64, 32, 16, 8, 4, 2, 1]);
    assert_eq!(jump_flood_steps(4, 3), vec![2, 1]);
    assert_eq!(jump_flood_steps(5, 1), vec![4, 2, 1]);
    assert!(jump_flood_steps(1, 1).is_empty());
    assert!(jump_flood_steps(0, 0).is_empty());
    assert_eq!(jump_flood_steps(0x8000_0000, 1)[0], 0x4000_0000);
}

#[test]
fn model_files_are_told_apart_by_extension() {
    assert_eq!(model_file_kind("assets/models/a.gltf"), Ok(ModelFileKind::Gltf));
    assert_eq!(model_file_kind("b.glb"), Ok(ModelFileKind::Glb));
    assert_eq!(
        model_file_kind("c.obj"),
        Err("<c.obj> is not a model file (.gltf or .glb)!".to_string())
    );
    assert!(model_file_kind(".glt").is_err());
}

#[test]
fn alpha_mode_follows_base_color_transparency() {
    assert_eq!(alpha_mode_for_base_color(Some(true)), AlphaMode::Blend);
    assert_eq!(alpha_mode_for_base_color(Some(false)), AlphaMode::Opaque);
    assert_eq!(alpha_mode_for_base_color(None), AlphaMode::Opaque);
}

#[test]
fn primitive_indices_are_appended_with_their_range() {
    let mut indices = vec![0u32, 1, 2];
    assert_eq!(append_primitive_indices(&mut indices, vec![2, 1, 0, 3]), (3, 4));
    assert_eq!(indices, vec![0, 1, 2, 2, 1, 0, 3]);
    assert_eq!(append_primitive_indices(&mut indices, vec![]), (7, 0));
}

use std::sync::Arc;
use wgpu_pbr::editor::texture_preview::{texture_has_area, TexturePreview};
use wgpu_pbr::render::post_processing::PostProcessingManager;

#[test]
fn post_processing_passes_alternate_textures() {
    let mut manager = PostProcessingManager::new(
        Arc::new("bind0"),
        Arc::new("bind1"),
        Arc::new("tex0"),
        Arc::new("tex1"),
    );
    assert_eq!(*manager.get_current_source_texture(), "tex0");
    let (source, target) = manager.next_source_and_target();
    assert_eq!((*source, *target), ("bind0", "tex1"));
    assert_eq!(*manager.get_current_source_texture(), "tex1");
    let (source, target) = manager.next_source_and_target();
    assert_eq!((*source, *target), ("bind1", "tex0"));
    assert_eq!(*manager.get_current_source_texture(), "tex0");
    manager.next_source_and_target();
    manager.resize(Arc::new("b0"), Arc::new("b1"), Arc::new("t0"), Arc::new("t1"));
    assert_eq!(*manager.get_current_source_texture(), "t1");
}

#[test]
fn texture_preview_layer_browsing() {
    let mut preview: TexturePreview<u32, &str> = TexturePreview::new();
    preview.egui_tex_id = Some(3);
    preview.cached_view = Some("view");
    assert!(!preview.select_previous_layer());
    assert_eq!(preview.egui_tex_id, Some(3));
    assert!(preview.select_next_layer(3));
    assert_eq!(preview.cached_layer, 1);
    assert!(preview.egui_tex_id.is_none() && preview.cached_view.is_none());
    assert!(preview.select_next_layer(3));
    assert!(!preview.select_next_layer(3));
    assert_eq!(preview.cached_layer, 2);
    preview.clamp_layer(6);
    assert_eq!(preview.cached_layer, 2);
    preview.clamp_layer(2);
    assert_eq!(preview.cached_layer, 0);
    assert!(!preview.select_next_layer(0));
    assert!(!preview.select_next_layer(u32::MAX) || preview.cached_layer == 1);
}

use wgpu_pbr::material::outline::{final_image_is_a, jump_flood_pass_io, JfaImage};

#[test]
fn jump_flood_passes_chain_through_a_and_b() {
    assert_eq!(jump_flood_pass_io(0), (JfaImage::Mask, JfaImage::A));
    assert_eq!(jump_flood_pass_io(1), (JfaImage::A, JfaImage::B));
    assert_eq!(jump_flood_pass_io(2), (JfaImage::B, JfaImage::A));
    assert_eq!(jump_flood_pass_io(3), (JfaImage::A, JfaImage::B));
    let steps = jump_flood_steps(1920, 1080);
    assert_eq!(steps.len(), 11);
    assert!(final_image_is_a(steps.len()));
    assert_eq!(jump_flood_pass_io(steps.len() - 1).1, JfaImage::A);
    assert!(!final_image_is_a(2));
}

use wgpu_pbr::render::global_binding::GlobalBindGroup;

#[test]
fn global_bind_group_samples_the_other_target() {
    let groups = GlobalBindGroup { bind_groups: vec![Arc::new("reads target 0"), Arc::new("reads target 1")] };
    let mut index = ColorTargetIndex::new();
    assert_eq!(**groups.get_bind_group(&index), "reads target 1");
    index.switch();
    assert_eq!(**groups.get_bind_group(&index), "reads target 0");
}

#[test]
fn dynamic_lights_follow_updates_and_removals() {
    let mut lights: DynamicLights<[u32; 2]> = DynamicLights::new();
    assert_eq!(lights.point_light_count(), 0);
    assert!(lights.lights_in_entity_order().is_empty());
    lights.update_light(7, [70, 1]);
    lights.update_light(2, [20, 1]);
    lights.update_light(5, [50, 1]);
    assert_eq!(lights.point_light_count(), 3);
    assert_eq!(lights.lights_in_entity_order(), vec![[20, 1], [50, 1], [70, 1]]);
    lights.update_light(5, [55, 2]);
    assert_eq!(lights.point_light_count(), 3);
    assert_eq!(lights.lights_in_entity_order(), vec![[20, 1], [55, 2], [70, 1]]);
    lights.remove_light(2);
    lights.remove_light(9);
    assert_eq!(lights.point_light_count(), 2);
    assert_eq!(lights.lights_in_entity_order(), vec![[55, 2], [70, 1]]);
}

#[test]
fn outlines_are_grouped_by_type_with_last_config() {
    let outlines: Vec<(u64, u64, u32)> = vec![(1, 10, 4), (2, 20, 8), (3, 10, 6), (1, 10, 5)];
    let groups = group_outlines(&outlines);
    assert_eq!(groups.len(), 2);
    let (a, config_a) = &groups[&10];
    let mut a: Vec<u64> = a.iter().copied().collect();
    a.sort();
    assert_eq!(a, vec![1, 3]);
    assert_eq!(*config_a, 5);
    let (b, config_b) = &groups[&20];
    assert_eq!(b.len(), 1);
    assert!(b.contains(&2));
    assert_eq!(*config_b, 8);
    assert!(group_outlines::<u32>(&vec![]).is_empty());
}

#[test]
fn outline_state_follows_types_in_use() {
    let mut state: BTreeMap<u64, &str> = BTreeMap::new();
    state.insert(1, "one");
    state.insert(2, "two");
    state.insert(3, "three");
    let mut in_use: BTreeMap<u64, ()> = BTreeMap::new();
    in_use.insert(2, ());
    in_use.insert(4, ());
    in_use.insert(5, ());
    let mut to_create = retain_outline_types(&mut state, &in_use);
    to_create.sort();
    assert_eq!(to_create, vec![4, 5]);
    assert_eq!(state.keys().copied().collect::<Vec<_>>(), vec![2]);
    assert_eq!(state[&2], "two");
    for t in to_create {
        state.insert(t, "new");
    }
    assert_eq!(state.keys().copied().collect::<Vec<_>>(), in_use.keys().copied().collect::<Vec<_>>());
    assert!(retain_outline_types(&mut state, &in_use).is_empty());
}

#[test]
fn resizing_replaces_both_images() {
    let mut target = ColorRenderTarget::<u8> { ping_pong: vec![None, Some(7)] };
    target.update_images(1, 2);
    assert_eq!(target.ping_pong, vec![Some(1), Some(2)]);
    let index = ColorTargetIndex::new();
    assert_eq!(target.get_target(&index), Some(&1));
    assert_eq!(target.get_sampleable(&index), Some(&2));
}

#[test]
fn mesh_indices_are_laid_out_primitive_after_primitive() {
    let lists = vec![vec![0u32, 1, 2], vec![], vec![2, 3, 0, 1]];
    let (indices, ranges) = assemble_mesh_indices(&lists);
    assert_eq!(indices, vec![0, 1, 2, 2, 3, 0, 1]);
    assert_eq!(ranges, vec![(0, 3), (3, 0), (3, 4)]);
    let (indices, ranges) = assemble_mesh_indices(&vec![]);
    assert!(indices.is_empty() && ranges.is_empty());
}

#[test]
fn zero_size_textures_are_not_drawn() {
    assert!(texture_has_area(1, 1));
    assert!(!texture_has_area(0, 5));
    assert!(!texture_has_area(5, 0));
}
