use std::sync::Arc;

use wgpu_pbr::asset::{AssetError, AssetPath, Assets};

#[test]
fn test_asset_handle() {
    let mut assets = Assets::<String>::new();
    let handle = assets.insert(Arc::new("Hello".to_string()));
    assert_eq!("Hello", *assets.get(&handle).unwrap());

    let hello = assets.remove(&handle).unwrap();
    assert_eq!("Hello", *hello);

    assert!(assets.get(&handle).is_none());
}

#[test]
fn test_asset_name() {
    let mut assets = Assets::<String>::new();
    let name = "boooo1121321!";
    assets
        .insert_with_name(name, Arc::new("Hello".to_string()))
        .unwrap();

    assert_eq!(*assets.get_by_name(&name.to_string()).unwrap(), "Hello");

    assets.remove_by_name(&name.to_string());

    assert!(assets.get_by_name(&name.to_string()).is_none());
}

#[test]
fn same_name_is_refused() {
    let mut assets = Assets::<u32>::new();
    let first = assets.insert_with_name("tex", Arc::new(1)).unwrap();
    let err = assets.insert_with_name("tex", Arc::new(2)).unwrap_err();
    assert_eq!(err, AssetError::SameName);
    assert_eq!(err.message(), "Same name in the assets!");
    assert_eq!(*assets.get(&first).unwrap(), 1);
    assert_eq!(*assets.get_by_name("tex").unwrap(), 1);
}

fn hyphenated(id: u128) -> String {
    let hex = format!("{:032x}", id);
    format!("{}-{}-{}-{}-{}", &hex[0..8], &hex[8..12], &hex[12..16], &hex[16..20], &hex[20..32])
}

#[test]
fn unnamed_asset_is_named_by_its_uuid_text() {
    let mut assets = Assets::<&'static str>::new();
    let handle = assets.insert(Arc::new("value"));
    let name = hyphenated(handle.uuid());
    assert_eq!(name.len(), 36);
    assert_eq!(*assets.get_by_name(&name).unwrap(), "value");
    // The name can be removed like any other, taking the asset with it.
    assert_eq!(*assets.remove_by_name(&name).unwrap(), "value");
    assert!(assets.get(&handle).is_none());
}

#[test]
fn handles_are_distinct_and_removal_drops_the_name() {
    let mut assets = Assets::<u8>::new();
    let a = assets.insert_with_name("a", Arc::new(1)).unwrap();
    let b = assets.insert(Arc::new(2));
    assert!(a != b);
    assert!(a == a.clone());
    assert_eq!(*assets.remove(&a).unwrap(), 1);
    assert!(assets.get_by_name("a").is_none());
    assert!(assets.remove(&a).is_none());
    assert!(assets.remove_by_name(&"a".to_string()).is_none());
    assert_eq!(*assets.get(&b).unwrap(), 2);
    // The name is free again.
    assert!(assets.insert_with_name("a", Arc::new(3)).is_ok());
}

#[test]
fn final_path_prefixes_assets_dir() {
    let path = AssetPath::Assets("shaders/blit.wgsl".to_string());
    assert_eq!(path.final_path(), "assets/shaders/blit.wgsl");
    assert_eq!(AssetPath::Assets(String::new()).final_path(), "assets/");
}
