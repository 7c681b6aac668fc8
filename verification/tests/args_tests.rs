use unity_unpacker::args::{is_executable, is_executable_by_extension, named_as_program, Args};
use unity_unpacker::asset::Asset;
use unity_unpacker::unpacker::{Conversion, MetaMove, Unpacker};
use std::path::Path;

fn args(tool: Option<&str>, copy_meta: bool) -> Args {
    Args {
        input: "in.unitypackage".to_string(),
        output: "out".to_string(),
        fbx_to_gltf: tool.map(|t| t.to_string()),
        get_materials_from_prefabs: false,
        ignore_extensions: None,
        copy_meta_files: copy_meta,
    }
}

fn joined(parts: &[&str]) -> String {
    let mut path = Path::new(parts[0]).to_path_buf();
    for part in &parts[1..] {
        path = path.join(part);
    }
    path.to_str().unwrap().to_string()
}

#[test]
fn executable_needs_an_execute_bit() {
    assert!(is_executable(Some(0o755)));
    assert!(is_executable(Some(0o100644 | 0o001)));
    assert!(is_executable(Some(0o010)));
    assert!(is_executable(Some(0o100)));
    assert!(!is_executable(Some(0o644)));
    assert!(!is_executable(Some(0o100666)));
    assert!(!is_executable(Some(0)));
    assert!(!is_executable(None));
}

#[test]
fn program_extension_ends_in_exe() {
    assert!(named_as_program("exe"));
    assert!(named_as_program("myexe"));
    assert!(!named_as_program("ex"));
    assert!(!named_as_program("exe2"));
    assert!(!named_as_program("EXE"));
    assert!(!named_as_program(""));
    assert!(is_executable_by_extension("tools/FBX2glTF.exe"));
    assert!(!is_executable_by_extension("tools/FBX2glTF"));
    assert!(!is_executable_by_extension("tools.exe/FBX2glTF"));
}

#[test]
fn options_without_a_tool_can_be_served() {
    assert!(args(None, false).is_servable(false));
    assert!(args(None, false).is_servable(true));
    args(None, false).check(false);
    args(None, false).check(true);
}

#[test]
fn a_tool_has_to_be_executable() {
    assert!(args(Some("tools/convert"), false).is_servable(true));
    assert!(!args(Some("tools/convert"), false).is_servable(false));
    args(Some("tools/convert"), false).check(true);
    assert_eq!(Args::refusal(), "fbx_to_gltf require a path to executable");
}

#[test]
fn assets_are_moved_to_their_paths() {
    let assets = vec![
        Asset::new("g1".to_string(), "out/a/tree.fbx".to_string(), Some("fbx".to_string()), true),
        Asset::new("g2".to_string(), "out/a/bark.png".to_string(), Some("png".to_string()), false),
    ];
    let unpacker = Unpacker { args: args(None, false), assets };
    let plan = unpacker.process_data("./tmp_dir");
    assert_eq!(plan.len(), 2);
    assert_eq!(plan[0].guid, "g1");
    assert_eq!(plan[0].source, joined(&["./tmp_dir", "g1", "asset"]));
    assert_eq!(plan[0].target, "out/a/tree.fbx");
    assert_eq!(plan[0].meta, None);
    assert_eq!(plan[0].conversion, None);
    assert_eq!(plan[1].source, joined(&["./tmp_dir", "g2", "asset"]));
    assert_eq!(plan[1].target, "out/a/bark.png");
}

#[test]
fn sidecars_go_along_when_wanted() {
    let assets = vec![
        Asset::new("g1".to_string(), "out/a/tree.fbx".to_string(), Some("fbx".to_string()), true),
        Asset::new("g2".to_string(), "out/a/bark.png".to_string(), Some("png".to_string()), false),
    ];
    let unpacker = Unpacker { args: args(None, true), assets };
    let plan = unpacker.process_data("tmp");
    assert_eq!(
        plan[0].meta,
        Some(MetaMove { source: joined(&["tmp", "g1", "asset.meta"]), target: "out/a/tree.fbx.meta".to_string() })
    );
    assert_eq!(plan[1].meta, None);
}

#[test]
fn models_are_converted_when_a_tool_is_named() {
    let assets = vec![
        Asset::new("g1".to_string(), "out/a/tree.fbx".to_string(), Some("fbx".to_string()), true),
        Asset::new("g2".to_string(), "out/a/bark.png".to_string(), Some("png".to_string()), false),
    ];
    let unpacker = Unpacker { args: args(Some("tools/convert"), false), assets };
    let plan = unpacker.process_data("tmp");
    let source = joined(&["tmp", "g1", "asset"]);
    let output = Path::new("out/a/tree.fbx").with_extension("").to_str().unwrap().to_string();
    assert_eq!(output, "out/a/tree");
    assert_eq!(
        plan[0].conversion,
        Some(Conversion {
            output: output.clone(),
            arguments: vec!["--input".to_string(), source, "-b".to_string(), "--output".to_string(), output],
        })
    );
    assert_eq!(plan[1].conversion, None);
    let single = unpacker.place(&unpacker.assets[1], "tmp");
    assert_eq!(single, unpacker.process_data("tmp").remove(1));
}

#[test]
fn program_path_holds_a_dotted_extension_ending_in_exe() {
    for path in ["", "exe", "tools/exe", "a/b", ".exe", "a.exe/b", "a.exe.txt", "a.exe.", "exe.", "a.b/cexe"] {
        assert!(!is_executable_by_extension(path), "{:?}", path);
    }
    for path in ["a.exe", "tools/convert.exe", "a.b.exe", "a.myexe", "x/.hidden.exe", "a.exe/"] {
        assert!(is_executable_by_extension(path), "{:?}", path);
        let dot = path.rfind('.').unwrap();
        let ext = path[dot + 1..].trim_end_matches('/');
        assert!(ext.ends_with("exe") && !ext.contains('.'));
    }
}
