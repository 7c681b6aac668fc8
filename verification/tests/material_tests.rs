use unity_unpacker::primitives::materials::{
    find_slot, read_single_material, MaterialContainer, MaterialError, SavedProperties, TextureInfo,
    TextureProperty, UnityMaterial,
};
use unity_unpacker::primitives::reference::FileReference;
use unity_unpacker::yaml_helpers::cleanup_unity_yaml;

fn slot(name: &str, guid: Option<&str>) -> TextureProperty {
    TextureProperty {
        name: name.to_string(),
        info: TextureInfo {
            texture: FileReference { file_id: 2800000, guid: guid.map(|g| g.to_string()), file_type: Some(3) },
            ..TextureInfo::default()
        },
    }
}

fn material(groups: Vec<Vec<TextureProperty>>) -> UnityMaterial {
    UnityMaterial {
        name: "Bark".to_string(),
        properties: SavedProperties { serialized_version: 3, tex_envs: groups, floats: vec![], colors: vec![] },
        ..UnityMaterial::default()
    }
}

#[test]
fn file_without_objects_gives_no_material() {
    assert_eq!(read_single_material(vec![]), Err(MaterialError::Empty));
    assert_eq!(MaterialError::Empty.message(), "0 items in material file");
}

#[test]
fn other_object_is_no_material() {
    assert_eq!(read_single_material(vec![(4, MaterialContainer::DontCare)]), Err(MaterialError::InvalidKind));
    assert_eq!(MaterialError::InvalidKind.message(), "invalid material file");
}

#[test]
fn first_object_is_the_material() {
    let first = material(vec![vec![slot("_MainTex", Some("t1"))]]);
    let second = material(vec![vec![slot("_MainTex", Some("t2"))]]);
    let documents = vec![
        (1, MaterialContainer::Material(first)),
        (2, MaterialContainer::Material(second)),
        (3, MaterialContainer::DontCare),
    ];
    let found = read_single_material(documents).unwrap();
    assert_eq!(found, material(vec![vec![slot("_MainTex", Some("t1"))]]));
    assert_eq!(found.main_texture_guid(), Some("t1".to_string()));
}

#[test]
fn single_material_round_trips_its_texture() {
    for guid in ["0f1e2d3c4b5a69788796a5b4c3d2e1f0", "T1", ""] {
        let documents = vec![(2100000, MaterialContainer::Material(material(vec![vec![slot("_MainTex", Some(guid))]])))];
        let decoded = read_single_material(documents).unwrap();
        let extracted = decoded.main_texture_guid().unwrap();
        assert_eq!(extracted, guid);
        let again = vec![(2100000, MaterialContainer::Material(material(vec![vec![slot("_MainTex", Some(&extracted))]])))];
        assert_eq!(read_single_material(again).unwrap().main_texture_guid(), Some(guid.to_string()));
    }
}

#[test]
fn main_texture_is_in_the_first_group_that_has_the_slot() {
    let m = material(vec![
        vec![slot("_BumpMap", Some("b"))],
        vec![slot("_Detail", Some("d")), slot("_MainTex", Some("first")), slot("_MainTex", Some("twice"))],
        vec![slot("_MainTex", Some("later"))],
    ]);
    assert_eq!(m.main_texture_guid(), Some("first".to_string()));
    assert_eq!(m.properties.find_texture("_Detail").unwrap().texture.guid, Some("d".to_string()));
    assert_eq!(m.properties.find_texture("_Missing"), None);
    assert_eq!(find_slot(&m.properties.tex_envs[1], "_MainTex"), Some(1));
    assert_eq!(find_slot(&m.properties.tex_envs[0], "_MainTex"), None);
}

#[test]
fn material_without_main_texture_has_none() {
    assert_eq!(material(vec![]).main_texture_guid(), None);
    assert_eq!(material(vec![vec![]]).main_texture_guid(), None);
    assert_eq!(material(vec![vec![slot("_MainTex", None)], vec![slot("_MainTex", Some("x"))]]).main_texture_guid(), None);
    assert_eq!(FileReference::default().guid(), None);
}

#[test]
fn normalized_material_keeps_its_texture_line() {
    let raw = "%YAML 1.1\n--- !u!21 &2100000\nMaterial:\n  m_SavedProperties:\n    m_TexEnvs:\n    - _MainTex:\n        m_Texture: {fileID: 2800000, guid: T1, type: 3}\n";
    let plain = cleanup_unity_yaml(raw).unwrap();
    assert!(plain.starts_with("2100000:\n  object_type: Material\n"));
    assert!(plain.contains("        m_Texture: {fileID: 2800000, guid: T1, type: 3}\n"));
}
