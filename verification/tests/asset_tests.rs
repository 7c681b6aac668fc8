use std::path::Path;
use unity_unpacker::asset::{Asset, AssetType, FolderEntry, FolderFile};
use unity_unpacker::primitives::materials::{
    MaterialContainer, SavedProperties, TextureInfo, TextureProperty, UnityMaterial,
};
use unity_unpacker::primitives::reference::FileReference;

fn file(name: &str, first_line: Option<&str>) -> FolderFile {
    FolderFile { name: name.to_string(), first_line: first_line.map(|l| l.to_string()) }
}

fn folder(name: &str, files: Vec<FolderFile>) -> FolderEntry {
    FolderEntry { name: name.to_string(), is_dir: true, files }
}

fn joined(base: &str, rel: &str) -> String {
    Path::new(base).join(rel).to_str().unwrap().to_string()
}

fn material_with(slot: &str, guid: Option<&str>) -> UnityMaterial {
    UnityMaterial {
        name: "Bark".to_string(),
        shader: FileReference { file_id: 46, guid: Some("0000000000000000f000000000000000".to_string()), file_type: Some(0) },
        properties: SavedProperties {
            serialized_version: 3,
            tex_envs: vec![vec![TextureProperty {
                name: slot.to_string(),
                info: TextureInfo {
                    texture: FileReference { file_id: 2800000, guid: guid.map(|g| g.to_string()), file_type: Some(3) },
                    ..TextureInfo::default()
                },
            }]],
            floats: vec![],
            colors: vec![],
        },
        string_tags: vec![],
    }
}

#[test]
fn folder_with_asset_and_pathname_yields_asset() {
    let entry = folder(
        "abc123",
        vec![file("asset", None), file("pathname", Some("Assets/Models/tree.fbx")), file("asset.meta", None)],
    );
    let asset = Asset::from_path(&entry, "out").unwrap();
    assert_eq!(asset.guid, "abc123");
    assert_eq!(asset.path, joined("out", "Assets/Models/tree.fbx"));
    assert_ne!(asset.path, "Assets/Models/tree.fbx");
    assert_eq!(asset.extension, Some("fbx".to_string()));
    assert!(asset.has_meta);
    assert_eq!(asset.asset_type, AssetType::FbxModel);
}

#[test]
fn kind_follows_the_extension() {
    let cases = [
        ("a/b.fbx", Some("fbx"), AssetType::FbxModel),
        ("a/b.prefab", Some("prefab"), AssetType::Prefab),
        ("a/b.unity", Some("unity"), AssetType::Scene),
        ("a/b.mat", Some("mat"), AssetType::Material),
        ("a/b.png", Some("png"), AssetType::Other("png".to_string())),
        ("a/b.FBX", Some("fbx"), AssetType::FbxModel),
        ("Models/Tree.FBX", Some("fbx"), AssetType::FbxModel),
        ("a/b.Prefab", Some("prefab"), AssetType::Prefab),
        ("a/b.MAT", Some("mat"), AssetType::Material),
        ("a/b.PnG", Some("png"), AssetType::Other("png".to_string())),
        ("a/b.\u{c9}X", Some("\u{c9}x"), AssetType::Other("\u{c9}x".to_string())),
        ("a/b", None, AssetType::Other(String::new())),
        ("a.fbx/b", None, AssetType::Other(String::new())),
    ];
    for (path, extension, kind) in cases {
        let entry = folder("g", vec![file("pathname", Some(path)), file("asset", None)]);
        let asset = Asset::from_path(&entry, "out").unwrap();
        assert_eq!(asset.extension, extension.map(|e| e.to_string()), "{}", path);
        assert_eq!(asset.asset_type, kind, "{}", path);
        assert_eq!(asset.asset_type, AssetType::from_extension(&asset.extension));
        assert!(!asset.has_meta);
    }
}

#[test]
fn new_asset_takes_its_kind_from_the_extension() {
    let asset = Asset::new("g".to_string(), "out/a.mat".to_string(), Some("mat".to_string()), true);
    assert_eq!(
        asset,
        Asset {
            extension: Some("mat".to_string()),
            guid: "g".to_string(),
            path: "out/a.mat".to_string(),
            has_meta: true,
            asset_type: AssetType::Material,
        }
    );
    assert!(asset.is_material());
    assert!(asset.asset_type.is_material() && !asset.asset_type.is_model() && !asset.asset_type.is_prefab());
    assert_eq!(asset.clone(), asset);
}

#[test]
fn folder_without_asset_is_passed_over() {
    let entry = folder("g", vec![file("pathname", Some("a/b.fbx")), file("asset.meta", None)]);
    assert_eq!(Asset::from_path(&entry, "out"), None);
}

#[test]
fn folder_without_pathname_is_passed_over() {
    let entry = folder("g", vec![file("asset", None), file("asset.meta", None)]);
    assert_eq!(Asset::from_path(&entry, "out"), None);
    assert_eq!(Asset::from_path(&folder("g", vec![]), "out"), None);
}

#[test]
fn plain_file_is_passed_over() {
    let entry = FolderEntry {
        name: "g".to_string(),
        is_dir: false,
        files: vec![file("asset", None), file("pathname", Some("a/b.fbx"))],
    };
    assert_eq!(Asset::from_path(&entry, "out"), None);
}

#[test]
fn pathname_without_a_line_leaves_the_path_empty() {
    let entry = folder("g", vec![file("asset", None), file("pathname", None), file("thumb.png", None)]);
    let asset = Asset::from_path(&entry, "out").unwrap();
    assert_eq!(asset.path, "");
    assert_eq!(asset.extension, None);
    assert_eq!(asset.asset_type, AssetType::Other(String::new()));
    assert_eq!(asset.guid, "g");
}

#[test]
fn scan_reads_the_listing() {
    let entry = folder("g", vec![file("other", Some("x")), file("pathname", Some("a/b.c")), file("asset.meta", None)]);
    let found = entry.scan();
    assert_eq!(found.declared, Some("a/b.c".to_string()));
    assert!(found.has_pathname && found.has_meta && !found.has_asset);
    assert!(FolderEntry::is_pathname_record("pathname"));
    assert!(!FolderEntry::is_pathname_record("asset"));
}

#[test]
fn material_names_its_main_texture() {
    let asset = Asset::new("m".to_string(), "out/a.mat".to_string(), Some("mat".to_string()), false);
    let documents = vec![(2100000i64, MaterialContainer::Material(material_with("_MainTex", Some("t1"))))];
    assert_eq!(asset.try_get_mat_texture_guid(Some(documents)), Some("t1".to_string()));
}

#[test]
fn only_a_material_has_a_texture() {
    let asset = Asset::new("m".to_string(), "out/a.fbx".to_string(), Some("fbx".to_string()), false);
    let documents = vec![(2100000i64, MaterialContainer::Material(material_with("_MainTex", Some("t1"))))];
    assert_eq!(asset.try_get_mat_texture_guid(Some(documents)), None);
}

#[test]
fn material_without_texture_has_none() {
    let asset = Asset::new("m".to_string(), "out/a.mat".to_string(), Some("mat".to_string()), false);
    assert_eq!(asset.try_get_mat_texture_guid(None), None);
    assert_eq!(asset.try_get_mat_texture_guid(Some(vec![])), None);
    assert_eq!(asset.try_get_mat_texture_guid(Some(vec![(1, MaterialContainer::DontCare)])), None);
    let other_slot = vec![(1i64, MaterialContainer::Material(material_with("_BumpMap", Some("t1"))))];
    assert_eq!(asset.try_get_mat_texture_guid(Some(other_slot)), None);
    let empty_slot = vec![(1i64, MaterialContainer::Material(material_with("_MainTex", None)))];
    assert_eq!(asset.try_get_mat_texture_guid(Some(empty_slot)), None);
}

#[test]
fn extension_stands_in_the_path_behind_a_dot() {
    for declared in ["a/b.fbx", "a.b.c", "a/b.tar.GZ", ".hidden", "a.", "dir.x/file", "x..y", "a/.b.C", "a.B/", "a/b.c/.", ""] {
        let entry = folder("g", vec![file("pathname", Some(declared)), file("asset", None)]);
        let asset = Asset::from_path(&entry, "out").unwrap();
        let raw = Path::new(&asset.path).extension().map(|e| e.to_str().unwrap().to_string());
        assert_eq!(asset.extension, raw.as_ref().map(|e| e.to_ascii_lowercase()), "{:?}", declared);
        if let Some(ext) = &raw {
            assert!(asset.path.contains(&format!(".{}", ext)), "{:?}", declared);
            assert!(!ext.contains('.'), "{:?}", declared);
        }
    }
}
