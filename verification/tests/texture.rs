use std::io::Cursor;

use wgpu_pbr::asset::cubemap::{cubemap_from_faces, decode_cubemap_faces};
use wgpu_pbr::asset::load::{
    has_alpha, is_any_pixel_transparent, load_texture_from_memory, texture_from_decoded, ColorType,
};

fn png_bytes(img: image::DynamicImage) -> Vec<u8> {
    let mut out = Cursor::new(Vec::new());
    img.write_to(&mut out, image::ImageFormat::Png).unwrap();
    out.into_inner()
}

#[test]
fn transparent_rgba_png_is_detected() {
    let mut img = image::RgbaImage::new(2, 1);
    img.put_pixel(0, 0, image::Rgba([10, 20, 30, 255]));
    img.put_pixel(1, 0, image::Rgba([1, 2, 3, 128]));
    let bytes = png_bytes(image::DynamicImage::ImageRgba8(img));
    let texture = load_texture_from_memory(&bytes).unwrap();
    assert_eq!((texture.width, texture.height), (2, 1));
    assert_eq!(texture.color, ColorType::Rgba8);
    assert_eq!(&texture.rgba[..8], &[10, 20, 30, 255, 1, 2, 3, 128]);
    assert!(texture.is_transparent);
}

#[test]
fn opaque_images_are_not_transparent() {
    let mut rgba = image::RgbaImage::new(1, 2);
    rgba.put_pixel(0, 0, image::Rgba([0, 0, 0, 255]));
    rgba.put_pixel(0, 1, image::Rgba([9, 9, 9, 255]));
    let texture = load_texture_from_memory(&png_bytes(image::DynamicImage::ImageRgba8(rgba))).unwrap();
    assert!(!texture.is_transparent);

    let rgb = image::RgbImage::new(3, 3);
    let texture = load_texture_from_memory(&png_bytes(image::DynamicImage::ImageRgb8(rgb))).unwrap();
    assert_eq!(texture.color, ColorType::Rgb8);
    assert_eq!(texture.rgba.len(), 36);
    assert_eq!(texture.rgba[3], 255);
    assert!(!texture.is_transparent);
}

#[test]
fn garbage_is_not_an_image() {
    assert!(load_texture_from_memory(&[1, 2, 3, 4]).is_err());
}

#[test]
fn alpha_layouts_and_pixel_scan() {
    assert!(has_alpha(ColorType::La8));
    assert!(has_alpha(ColorType::Rgba32F));
    assert!(!has_alpha(ColorType::Rgb16));
    assert!(!has_alpha(ColorType::Other));
    let rgba = [0u8, 0, 0, 255, 0, 0, 0, 254];
    assert!(is_any_pixel_transparent(&rgba, 2));
    assert!(!is_any_pixel_transparent(&rgba, 1));
    assert!(!is_any_pixel_transparent(&rgba, 0));
}

fn solid_png(width: u32, height: u32, value: u8) -> Vec<u8> {
    let img = image::RgbaImage::from_pixel(width, height, image::Rgba([value, value, value, 255]));
    png_bytes(image::DynamicImage::ImageRgba8(img))
}

#[test]
fn cubemap_faces_are_decoded_in_order() {
    let files: Vec<Vec<u8>> = (0..6u8).map(|i| solid_png(2, 2, i * 10)).collect();
    let cubemap = decode_cubemap_faces(&files).unwrap();
    assert_eq!((cubemap.width, cubemap.height), (2, 2));
    assert_eq!(cubemap.faces.len(), 6);
    for (i, face) in cubemap.faces.iter().enumerate() {
        assert_eq!(face.len(), 16);
        assert_eq!(face[0], i as u8 * 10);
        assert_eq!(face[3], 255);
    }
}

#[test]
fn cubemap_takes_the_size_of_the_first_face() {
    let mut files: Vec<Vec<u8>> = (0..6u8).map(|_| solid_png(1, 1, 7)).collect();
    files[0] = solid_png(3, 2, 7);
    let cubemap = decode_cubemap_faces(&files).unwrap();
    assert_eq!((cubemap.width, cubemap.height), (3, 2));
    assert_eq!(cubemap.faces[0].len(), 24);
    assert_eq!(cubemap.faces[5].len(), 4);
}

#[test]
fn cubemap_fails_on_the_first_bad_face() {
    let mut files: Vec<Vec<u8>> = (0..6u8).map(|_| solid_png(1, 1, 7)).collect();
    files[2] = vec![1, 2, 3];
    files[4] = vec![9];
    let expected = load_texture_from_memory(&files[2]).err().unwrap();
    assert_eq!(decode_cubemap_faces(&files).err(), Some(expected));
}

#[test]
fn faces_are_assembled_with_the_first_size() {
    let faces = vec![
        (vec![1u8, 2, 3, 4], 1, 1),
        (vec![5u8; 8], 2, 1),
        (vec![], 0, 0),
        (vec![6u8; 4], 1, 1),
        (vec![7u8; 4], 1, 1),
        (vec![8u8; 4], 1, 1),
    ];
    let cubemap = cubemap_from_faces(faces);
    assert_eq!((cubemap.width, cubemap.height), (1, 1));
    assert_eq!(cubemap.faces[0], vec![1, 2, 3, 4]);
    assert_eq!(cubemap.faces[1], vec![5u8; 8]);
    assert!(cubemap.faces[2].is_empty());
    assert_eq!(cubemap.faces[5], vec![8u8; 4]);
}

#[test]
fn texture_from_decoded_texels() {
    let texture = texture_from_decoded(ColorType::La8, vec![1, 2, 3, 255, 4, 5, 6, 200], 2, 1);
    assert!(texture.is_transparent);
    assert_eq!((texture.width, texture.height), (2, 1));
    let texture = texture_from_decoded(ColorType::Rgb8, vec![1, 2, 3, 200], 1, 1);
    assert!(!texture.is_transparent);
    assert_eq!(texture.color, ColorType::Rgb8);
    let texture = texture_from_decoded(ColorType::Rgba8, vec![1, 2, 3, 255, 4, 5, 6, 200], 1, 1);
    assert!(!texture.is_transparent);
}
