use unity_unpacker::args::Args;
use unity_unpacker::asset::{Asset, AssetType, FolderEntry, FolderFile};
use unity_unpacker::unpacker::{holds, Unpacker};

fn args(ignore: Option<Vec<&str>>) -> Args {
    Args {
        input: "in.unitypackage".to_string(),
        output: "out".to_string(),
        fbx_to_gltf: None,
        get_materials_from_prefabs: false,
        ignore_extensions: ignore.map(|l| l.into_iter().map(|e| e.to_string()).collect()),
        copy_meta_files: false,
    }
}

fn folder(name: &str, path: Option<&str>, asset: bool, meta: bool) -> FolderEntry {
    let mut files = vec![];
    if meta {
        files.push(FolderFile { name: "asset.meta".to_string(), first_line: None });
    }
    if let Some(p) = path {
        files.push(FolderFile { name: "pathname".to_string(), first_line: Some(p.to_string()) });
    }
    if asset {
        files.push(FolderFile { name: "asset".to_string(), first_line: None });
    }
    FolderEntry { name: name.to_string(), is_dir: true, files }
}

fn entries() -> Vec<FolderEntry> {
    vec![
        folder("g1", Some("Assets/tree.fbx"), true, true),
        folder("g2", Some("Assets"), false, true),
        folder("g3", Some("Assets/tree.prefab"), true, false),
        folder("g4", Some("Assets/bark.mat"), true, true),
        folder("g5", Some("Assets/bark.png"), true, true),
        folder("g6", Some("Assets/readme"), true, false),
        folder("g7", None, true, false),
        FolderEntry { name: "stray".to_string(), is_dir: false, files: vec![] },
        folder("g8", Some("Assets/level.unity"), true, false),
    ]
}

fn guids(assets: &Vec<Asset>) -> Vec<&str> {
    assets.iter().map(|a| a.guid.as_str()).collect()
}

#[test]
fn catalog_holds_the_folders_with_payload() {
    let mut unpacker = Unpacker { args: args(None), assets: vec![] };
    unpacker.extract(&entries());
    assert_eq!(guids(&unpacker.assets), vec!["g1", "g3", "g4", "g5", "g6", "g8"]);
    assert_eq!(unpacker.assets[0].asset_type, AssetType::FbxModel);
    assert_eq!(unpacker.assets[5].asset_type, AssetType::Scene);
    assert!(unpacker.assets[0].has_meta && !unpacker.assets[1].has_meta);
}

#[test]
fn catalog_guids_are_unique_and_name_folders_with_payload() {
    let all = entries();
    let mut unpacker = Unpacker { args: args(Some(vec!["png"])), assets: vec![] };
    unpacker.extract(&all);
    for (i, a) in unpacker.assets.iter().enumerate() {
        for b in &unpacker.assets[i + 1..] {
            assert_ne!(a.guid, b.guid);
        }
        let source = all.iter().find(|e| e.name == a.guid).unwrap();
        assert!(source.files.iter().any(|f| f.name == "asset"));
        assert!(source.files.iter().any(|f| f.name == "pathname"));
    }
    assert!(!guids(&unpacker.assets).contains(&"g2"));
}

#[test]
fn ignored_extensions_are_left_out() {
    let mut unpacker = Unpacker { args: args(Some(vec!["png", "mat", "FBX"])), assets: vec![] };
    unpacker.extract(&entries());
    assert_eq!(guids(&unpacker.assets), vec!["g1", "g3", "g6", "g8"]);
}

#[test]
fn empty_extension_can_be_ignored() {
    let mut unpacker = Unpacker { args: args(Some(vec![""])), assets: vec![] };
    unpacker.extract(&entries());
    assert_eq!(guids(&unpacker.assets), vec!["g1", "g3", "g4", "g5", "g8"]);
}

#[test]
fn extract_replaces_the_catalog() {
    let mut unpacker = Unpacker { args: args(None), assets: vec![] };
    unpacker.extract(&entries());
    unpacker.extract(&vec![folder("h1", Some("a.mat"), true, false)]);
    assert_eq!(guids(&unpacker.assets), vec!["h1"]);
    unpacker.extract(&vec![]);
    assert!(unpacker.assets.is_empty());
}

#[test]
fn partition_splits_by_kind() {
    let mut unpacker = Unpacker { args: args(None), assets: vec![] };
    let mut all = entries();
    all.push(folder("g9", Some("Assets/rock.fbx"), true, false));
    unpacker.extract(&all);
    let parts = unpacker.partition();
    assert_eq!(guids(&parts.models), vec!["g1", "g9"]);
    assert_eq!(guids(&parts.prefabs), vec!["g3"]);
    assert_eq!(guids(&parts.materials), vec!["g4"]);
}

#[test]
fn holds_compares_exactly() {
    let list = vec!["png".to_string(), "".to_string()];
    assert!(holds(&list, &"png".to_string()));
    assert!(holds(&list, &"".to_string()));
    assert!(!holds(&list, &"PNG".to_string()));
    assert!(!holds(&vec![], &"png".to_string()));
}

#[test]
fn ignore_list_is_held_against_the_extension_as_written() {
    let all = vec![folder("g1", Some("Models/Tree.FBX"), true, false), folder("g2", Some("Models/rock.fbx"), true, false)];
    let mut unpacker = Unpacker { args: args(Some(vec!["fbx"])), assets: vec![] };
    unpacker.extract(&all);
    assert_eq!(guids(&unpacker.assets), vec!["g1"]);
    assert_eq!(unpacker.assets[0].extension, Some("fbx".to_string()));
    assert_eq!(unpacker.assets[0].asset_type, AssetType::FbxModel);
    let mut unpacker = Unpacker { args: args(Some(vec!["FBX"])), assets: vec![] };
    unpacker.extract(&all);
    assert_eq!(guids(&unpacker.assets), vec!["g2"]);
}

#[test]
fn clone_keeps_options_and_catalog() {
    let mut unpacker = Unpacker { args: args(Some(vec!["png", ""])), assets: vec![] };
    unpacker.extract(&entries());
    let copy = unpacker.clone();
    assert_eq!(copy.assets, unpacker.assets);
    assert_eq!(copy.args.ignore_extensions, unpacker.args.ignore_extensions);
    assert_eq!(copy.args.output, unpacker.args.output);
    assert_eq!(copy.args.fbx_to_gltf, unpacker.args.fbx_to_gltf);
}
