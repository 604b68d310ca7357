use usd_rs::asset_path::{find_nul, AssetPathConstruction, AssetPathError, AssetPathRefDescriptor};
use usd_rs::stage::InitialLoadSet;

#[test]
fn default_load_set_is_load_all() {
    assert_eq!(InitialLoadSet::default(), InitialLoadSet::LoadAll);
}

#[test]
fn load_set_native_values() {
    assert_eq!(InitialLoadSet::LoadAll.native_value(), 0);
    assert_eq!(InitialLoadSet::LoadNone.native_value(), 1);
}

#[test]
fn path_alone_uses_path_construction() {
    let d = AssetPathRefDescriptor { path: "model.usda".to_string(), resolved_path: None };
    let c = d.construction().ok().unwrap();
    assert!(matches!(c, AssetPathConstruction::FromPath { .. }));
    assert_eq!(c.path(), "model.usda");
}

#[test]
fn both_paths_use_two_path_construction() {
    let d = AssetPathRefDescriptor {
        path: "model.usda".to_string(),
        resolved_path: Some("/assets/model.usda".to_string()),
    };
    let c = d.construction().ok().unwrap();
    match &c {
        AssetPathConstruction::FromPathAndResolved { path, resolved_path } => {
            assert_eq!(path, "model.usda");
            assert_eq!(resolved_path, "/assets/model.usda");
        }
        _ => panic!("expected the two-path construction"),
    }
    assert_eq!(c.path(), "model.usda");
}

#[test]
fn nul_in_path_is_refused() {
    let d = AssetPathRefDescriptor { path: "ab\0c".to_string(), resolved_path: Some("x\0".to_string()) };
    assert_eq!(d.construction().err(), Some(AssetPathError::NulInPath { position: 2 }));
}

#[test]
fn nul_in_resolved_path_is_refused() {
    let d = AssetPathRefDescriptor { path: "abc".to_string(), resolved_path: Some("x\0y\0".to_string()) };
    assert_eq!(d.construction().err(), Some(AssetPathError::NulInResolvedPath { position: 1 }));
}

#[test]
fn first_nul_position() {
    assert_eq!(find_nul("a\0b\0"), Some(1));
    assert_eq!(find_nul("abc"), None);
    assert_eq!(find_nul(""), None);
}
