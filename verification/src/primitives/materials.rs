//! Material definitions, and the texture that a material is drawn with.

use vstd::prelude::*;
use vstd::string::*;
use crate::primitives::reference::FileReference;
use crate::text::reads_as;

verus! {

/// A single-precision number, carried by its IEEE 754 bit pattern.
#[derive(Debug, Clone, Copy, PartialEq, Eq, Default)]
pub struct Scalar {
    pub bits: u32,
}

#[derive(Debug, Clone, Copy, PartialEq, Eq, Default)]
pub struct UnityVector2 {
    pub x: Scalar,
    pub y: Scalar,
}

#[derive(Debug, Clone, Copy, PartialEq, Eq, Default)]
pub struct UnityColor {
    pub r: Scalar,
    pub g: Scalar,
    pub b: Scalar,
    pub a: Scalar,
}

/// How a texture is applied.
#[derive(Debug, PartialEq, Eq, Default)]
pub struct TextureInfo {
    pub texture: FileReference,
    pub scale: UnityVector2,
    pub offset: UnityVector2,
}

/// A named texture slot.
#[derive(Debug, PartialEq, Eq)]
pub struct TextureProperty {
    pub name: String,
    pub info: TextureInfo,
}

/// A named number.
#[derive(Debug, PartialEq, Eq)]
pub struct FloatProperty {
    pub name: String,
    pub value: Scalar,
}

/// A named colour.
#[derive(Debug, PartialEq, Eq)]
pub struct ColorProperty {
    pub name: String,
    pub color: UnityColor,
}

/// The property bag of a material. Each of its three lists holds groups of named
/// properties, in the order of the file.
#[derive(Debug, PartialEq, Eq, Default)]
pub struct SavedProperties {
    pub serialized_version: u64,
    pub tex_envs: Vec<Vec<TextureProperty>>,
    pub floats: Vec<Vec<FloatProperty>>,
    pub colors: Vec<Vec<ColorProperty>>,
}

#[derive(Debug, PartialEq, Eq, Default)]
pub struct UnityMaterial {
    pub name: String,
    pub shader: FileReference,
    pub properties: SavedProperties,
    pub string_tags: Vec<(String, String)>,
}

/// One object of a decoded file: a material, or anything else.
#[derive(Debug, PartialEq, Eq)]
pub enum MaterialContainer {
    Material(UnityMaterial),
    DontCare,
}

/// Why a decoded file gives no material.
#[derive(Debug, Clone, Copy, PartialEq, Eq)]
pub enum MaterialError {
    /// The file holds no object.
    Empty,
    /// The object is no material.
    InvalidKind,
}

impl MaterialError {
    pub fn message(&self) -> (text: String)
        ensures
            text@ == match self {
                MaterialError::Empty => "0 items in material file"@,
                MaterialError::InvalidKind => "invalid material file"@,
            },
    {
        match self {
            MaterialError::Empty => String::from_str("0 items in material file"),
            MaterialError::InvalidKind => String::from_str("invalid material file"),
        }
    }
}

/// No two objects of a decoded file bear the same number.
pub open spec fn distinct_ids(documents: Seq<(i64, MaterialContainer)>) -> bool {
    forall|i: int, j: int|
        0 <= i < j < documents.len() ==> (#[trigger] documents[i]).0 != (#[trigger] documents[j]).0
}

/// No two texture slots of a group bear the same name.
pub open spec fn distinct_slots(group: Seq<TextureProperty>) -> bool {
    forall|i: int, j: int|
        0 <= i < j < group.len() ==> (#[trigger] group[i]).name@ != (#[trigger] group[j]).name@
}

/// No two numbers of a group bear the same name.
pub open spec fn distinct_floats(group: Seq<FloatProperty>) -> bool {
    forall|i: int, j: int|
        0 <= i < j < group.len() ==> (#[trigger] group[i]).name@ != (#[trigger] group[j]).name@
}

/// No two colours of a group bear the same name.
pub open spec fn distinct_colors(group: Seq<ColorProperty>) -> bool {
    forall|i: int, j: int|
        0 <= i < j < group.len() ==> (#[trigger] group[i]).name@ != (#[trigger] group[j]).name@
}

/// No two tags bear the same name.
pub open spec fn distinct_tags(tags: Seq<(String, String)>) -> bool {
    forall|i: int, j: int|
        0 <= i < j < tags.len() ==> (#[trigger] tags[i]).0@ != (#[trigger] tags[j]).0@
}

impl SavedProperties {
    /// Within each group a name occurs once, as in the file that the properties
    /// were read from.
    pub open spec fn well_formed(&self) -> bool {
        &&& forall|g: int|
            0 <= g < self.tex_envs@.len() ==> distinct_slots((#[trigger] self.tex_envs@[g])@)
        &&& forall|g: int|
            0 <= g < self.floats@.len() ==> distinct_floats((#[trigger] self.floats@[g])@)
        &&& forall|g: int|
            0 <= g < self.colors@.len() ==> distinct_colors((#[trigger] self.colors@[g])@)
    }
}

impl UnityMaterial {
    /// The names within each group of properties, and the names of the tags, occur
    /// once.
    pub open spec fn well_formed(&self) -> bool {
        self.properties.well_formed() && distinct_tags(self.string_tags@)
    }
}

/// In a group where a name occurs once, the slot of a name is the slot found
/// under it, wherever it stands.
pub proof fn lemma_slot_is_the_only_one(group: Seq<TextureProperty>, name: Seq<char>, i: int)
    requires
        distinct_slots(group),
        0 <= i < group.len(),
        group[i].name@ == name,
    ensures
        slot_index(group, name) == Some(i),
{
    let found = slot_index(group, name).unwrap();
    if found < i {
        assert(group[found].name@ != group[i].name@);
    }
}

/// The material of a decoded file: its first object, which has to be a material.
pub open spec fn single_material(documents: Seq<(i64, MaterialContainer)>) -> Result<
    UnityMaterial,
    MaterialError,
> {
    if documents.len() == 0 {
        Err(MaterialError::Empty)
    } else {
        match documents[0].1 {
            MaterialContainer::Material(material) => Ok(material),
            MaterialContainer::DontCare => Err(MaterialError::InvalidKind),
        }
    }
}

/// Takes the material out of the objects of a decoded file.
pub fn read_single_material(documents: Vec<(i64, MaterialContainer)>) -> (material: Result<
    UnityMaterial,
    MaterialError,
>)
    ensures
        material == single_material(documents@),
{
    let mut documents = documents;
    if documents.len() == 0 {
        return Err(MaterialError::Empty);
    }
    let (_, first) = documents.remove(0);
    match first {
        MaterialContainer::Material(material) => Ok(material),
        MaterialContainer::DontCare => Err(MaterialError::InvalidKind),
    }
}

/// Where the first property called `name` stands in a group.
pub open spec fn slot_index(group: Seq<TextureProperty>, name: Seq<char>) -> Option<int> {
    if exists|i: int| 0 <= i < group.len() && (#[trigger] group[i]).name@ == name {
        Some(
            choose|i: int|
                0 <= i < group.len() && (#[trigger] group[i]).name@ == name && forall|j: int|
                    0 <= j < i ==> (#[trigger] group[j]).name@ != name,
        )
    } else {
        None
    }
}

/// The first group that holds a property called `name`.
pub open spec fn group_index(groups: Seq<Vec<TextureProperty>>, name: Seq<char>) -> Option<int> {
    if exists|g: int| 0 <= g < groups.len() && slot_index((#[trigger] groups[g])@, name) is Some {
        Some(
            choose|g: int|
                0 <= g < groups.len() && slot_index((#[trigger] groups[g])@, name) is Some
                    && forall|h: int|
                    0 <= h < g ==> slot_index((#[trigger] groups[h])@, name) is None,
        )
    } else {
        None
    }
}

impl SavedProperties {
    /// The texture slot called `name`: the one in the first group that has one.
    pub open spec fn texture_slot(&self, name: Seq<char>) -> Option<TextureInfo> {
        match group_index(self.tex_envs@, name) {
            Some(g) => Some(self.tex_envs@[g]@[slot_index(self.tex_envs@[g]@, name).unwrap()].info),
            None => None,
        }
    }

    /// Looks up the texture slot called `name`.
    pub fn find_texture(&self, name: &str) -> (slot: Option<&TextureInfo>)
        ensures
            match slot {
                Some(info) => self.texture_slot(name@) == Some(*info),
                None => self.texture_slot(name@) is None,
            },
    {
        let mut g: usize = 0;
        while g < self.tex_envs.len()
            invariant
                g <= self.tex_envs.len(),
                forall|h: int|
                    0 <= h < g ==> slot_index((#[trigger] self.tex_envs@[h])@, name@) is None,
            decreases self.tex_envs.len() - g,
        {
            match find_slot(&self.tex_envs[g], name) {
                Some(i) => {
                    assert(slot_index(self.tex_envs@[g as int]@, name@) is Some);
                    assert(group_index(self.tex_envs@, name@) == Some(g as int));
                    return Some(&self.tex_envs[g][i].info);
                },
                None => {},
            }
            g += 1;
        }
        None
    }
}

/// Where in a group the first property called `name` stands.
pub fn find_slot(group: &Vec<TextureProperty>, name: &str) -> (at: Option<usize>)
    ensures
        match at {
            Some(i) => slot_index(group@, name@) == Some(i as int) && i < group.len(),
            None => slot_index(group@, name@) is None,
        },
{
    let mut i: usize = 0;
    while i < group.len()
        invariant
            i <= group.len(),
            forall|j: int| 0 <= j < i ==> (#[trigger] group@[j]).name@ != name@,
        decreases group.len() - i,
    {
        if reads_as(group[i].name.as_str(), name) {
            return Some(i);
        }
        i += 1;
    }
    None
}

impl UnityMaterial {
    /// The GUID of the texture in the slot `_MainTex`, the primary texture of a
    /// material. A material without that slot, or with an empty one, has none.
    pub open spec fn main_texture(&self) -> Option<Seq<char>> {
        match self.properties.texture_slot("_MainTex"@) {
            Some(info) => info.texture.guid_view(),
            None => None,
        }
    }

    /// The GUID of the primary texture.
    pub fn main_texture_guid(&self) -> (guid: Option<String>)
        ensures
            guid.deep_view() == self.main_texture(),
    {
        match self.properties.find_texture("_MainTex") {
            Some(info) => info.texture.guid(),
            None => None,
        }
    }
}

/// The primary texture that a decoded file names: that of its material, where it
/// holds one.
pub open spec fn texture_of_documents(documents: Seq<(i64, MaterialContainer)>) -> Option<
    Seq<char>,
> {
    match single_material(documents) {
        Ok(material) => material.main_texture(),
        Err(_) => None,
    }
}

/// A file that holds one material and nothing else gives that very material, and
/// with it the GUID that stands in its primary texture slot.
pub proof fn lemma_single_material_round_trip(id: i64, material: UnityMaterial)
    ensures
        single_material(seq![(id, MaterialContainer::Material(material))]) == Ok::<
            UnityMaterial,
            MaterialError,
        >(material),
        texture_of_documents(seq![(id, MaterialContainer::Material(material))])
            == material.main_texture(),
{
}

/// A material that is written with the slot `_MainTex` as its only texture slot
/// names the GUID that the slot was written with.
pub proof fn lemma_main_texture_of_single_slot(material: UnityMaterial, slot: TextureProperty)
    requires
        material.properties.tex_envs@.len() == 1,
        material.properties.tex_envs@[0]@ == seq![slot],
        slot.name@ == "_MainTex"@,
    ensures
        material.main_texture() == slot.info.texture.guid_view(),
{
    let groups = material.properties.tex_envs@;
    let group = groups[0]@;
    assert(group[0].name@ == "_MainTex"@);
    assert(slot_index(group, "_MainTex"@) == Some(0int));
    assert(slot_index(groups[0]@, "_MainTex"@) is Some);
    assert(group_index(groups, "_MainTex"@) == Some(0int));
}

} // verus!
