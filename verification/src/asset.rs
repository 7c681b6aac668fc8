//! Assets of an unpacked package, and how one is read off its folder.

use vstd::prelude::*;
use vstd::string::*;
use crate::paths;
use crate::paths::{extension_of, joined};
use crate::primitives::materials::{MaterialContainer, read_single_material, texture_of_documents};
use crate::text::{lower_char, lowercased, reads_as, to_lowercase};

verus! {

/// What an asset is, by the extension of the path it is declared under.
#[derive(Debug, PartialEq, Eq, PartialOrd, Ord)]
pub enum AssetType {
    FbxModel,
    Material,
    Prefab,
    Scene,
    Other(String),
}

/// The mathematical value of an [`AssetType`].
pub enum AssetKind {
    FbxModel,
    Material,
    Prefab,
    Scene,
    Other(Seq<char>),
}

impl View for AssetType {
    type V = AssetKind;

    open spec fn view(&self) -> AssetKind {
        match self {
            AssetType::FbxModel => AssetKind::FbxModel,
            AssetType::Material => AssetKind::Material,
            AssetType::Prefab => AssetKind::Prefab,
            AssetType::Scene => AssetKind::Scene,
            AssetType::Other(ext) => AssetKind::Other(ext@),
        }
    }
}

impl DeepView for AssetType {
    type V = AssetKind;

    open spec fn deep_view(&self) -> AssetKind {
        self@
    }
}

impl Clone for AssetType {
    fn clone(&self) -> (copy: Self)
        ensures
            copy == *self,
    {
        match self {
            AssetType::FbxModel => AssetType::FbxModel,
            AssetType::Material => AssetType::Material,
            AssetType::Prefab => AssetType::Prefab,
            AssetType::Scene => AssetType::Scene,
            AssetType::Other(ext) => AssetType::Other(ext.clone()),
        }
    }
}

/// The kind that the extension table assigns: `fbx` is a model, `prefab` a prefab,
/// `unity` a scene, `mat` a material; any other extension is kept as it is, and a
/// path without extension counts as the empty one.
pub open spec fn kind_of_extension(ext: Option<Seq<char>>) -> AssetKind {
    match ext {
        Some(e) => if e == "fbx"@ {
            AssetKind::FbxModel
        } else if e == "prefab"@ {
            AssetKind::Prefab
        } else if e == "unity"@ {
            AssetKind::Scene
        } else if e == "mat"@ {
            AssetKind::Material
        } else {
            AssetKind::Other(e)
        },
        None => AssetKind::Other(Seq::empty()),
    }
}

impl AssetType {
    /// Looks the extension up in the table of [`kind_of_extension`].
    pub fn from_extension(ext: &Option<String>) -> (kind: AssetType)
        ensures
            kind@ == kind_of_extension(ext.deep_view()),
    {
        match ext {
            Some(e) => {
                if reads_as(e.as_str(), "fbx") {
                    AssetType::FbxModel
                } else if reads_as(e.as_str(), "prefab") {
                    AssetType::Prefab
                } else if reads_as(e.as_str(), "unity") {
                    AssetType::Scene
                } else if reads_as(e.as_str(), "mat") {
                    AssetType::Material
                } else {
                    AssetType::Other(e.clone())
                }
            },
            None => AssetType::Other(String::new()),
        }
    }

    pub fn is_model(&self) -> (yes: bool)
        ensures
            yes == (self@ is FbxModel),
    {
        matches!(self, AssetType::FbxModel)
    }

    pub fn is_material(&self) -> (yes: bool)
        ensures
            yes == (self@ is Material),
    {
        matches!(self, AssetType::Material)
    }

    pub fn is_prefab(&self) -> (yes: bool)
        ensures
            yes == (self@ is Prefab),
    {
        matches!(self, AssetType::Prefab)
    }
}

/// One object of the package: where it is to go, and what it is.
#[derive(Debug, PartialEq, Eq)]
pub struct Asset {
    /// The extension of `path`, in small letters.
    pub extension: Option<String>,
    /// The name of the folder that the object was unpacked into.
    pub guid: String,
    /// Where the object belongs in the output tree.
    pub path: String,
    /// Whether the folder held a metadata sidecar.
    pub has_meta: bool,
    pub asset_type: AssetType,
}

/// The mathematical value of an [`Asset`].
pub struct AssetView {
    pub extension: Option<Seq<char>>,
    pub guid: Seq<char>,
    pub path: Seq<char>,
    pub has_meta: bool,
    pub asset_type: AssetKind,
}

impl View for Asset {
    type V = AssetView;

    open spec fn view(&self) -> AssetView {
        AssetView {
            extension: self.extension.deep_view(),
            guid: self.guid@,
            path: self.path@,
            has_meta: self.has_meta,
            asset_type: self.asset_type@,
        }
    }
}

impl DeepView for Asset {
    type V = AssetView;

    open spec fn deep_view(&self) -> AssetView {
        self@
    }
}

impl Clone for Asset {
    fn clone(&self) -> (copy: Self)
        ensures
            copy == *self,
    {
        Asset {
            extension: match &self.extension {
                Some(e) => Some(e.clone()),
                None => None,
            },
            guid: self.guid.clone(),
            path: self.path.clone(),
            has_meta: self.has_meta,
            asset_type: self.asset_type.clone(),
        }
    }
}

impl AssetView {
    /// The kind follows from the extension alone.
    pub open spec fn well_formed(self) -> bool {
        self.asset_type == kind_of_extension(self.extension)
    }
}

/// One file of an unpacked folder.
#[derive(Debug, PartialEq, Eq)]
pub struct FolderFile {
    pub name: String,
    /// The first line of the file, where it was read and there was one.
    pub first_line: Option<String>,
}

pub struct FolderFileView {
    pub name: Seq<char>,
    pub first_line: Option<Seq<char>>,
}

impl View for FolderFile {
    type V = FolderFileView;

    open spec fn view(&self) -> FolderFileView {
        FolderFileView { name: self.name@, first_line: self.first_line.deep_view() }
    }
}

impl DeepView for FolderFile {
    type V = FolderFileView;

    open spec fn deep_view(&self) -> FolderFileView {
        self@
    }
}

/// One entry of the directory that the package was unpacked into.
#[derive(Debug, PartialEq, Eq)]
pub struct FolderEntry {
    pub name: String,
    pub is_dir: bool,
    pub files: Vec<FolderFile>,
}

pub struct FolderEntryView {
    pub name: Seq<char>,
    pub is_dir: bool,
    pub files: Seq<FolderFileView>,
}

impl View for FolderEntry {
    type V = FolderEntryView;

    open spec fn view(&self) -> FolderEntryView {
        FolderEntryView { name: self.name@, is_dir: self.is_dir, files: self.files.deep_view() }
    }
}

impl DeepView for FolderEntry {
    type V = FolderEntryView;

    open spec fn deep_view(&self) -> FolderEntryView {
        self@
    }
}

/// Whether one of `files` is called `name`.
pub open spec fn has_file(files: Seq<FolderFileView>, name: Seq<char>) -> bool {
    exists|i: int| 0 <= i < files.len() && (#[trigger] files[i]).name == name
}

/// The path that the folder declares: the first line of its `pathname` file. Should
/// several files bear that name, the last one that has a line counts.
pub open spec fn declared_path(files: Seq<FolderFileView>) -> Option<Seq<char>>
    decreases files.len(),
{
    if files.len() == 0 {
        None
    } else if files.last().name == "pathname"@ && files.last().first_line is Some {
        files.last().first_line
    } else {
        declared_path(files.drop_last())
    }
}

impl FolderEntryView {
    /// A folder stands for an asset when it holds both the payload and the record
    /// of its path.
    pub open spec fn holds_asset(self) -> bool {
        self.is_dir && has_file(self.files, "asset"@) && has_file(self.files, "pathname"@)
    }
}

/// The extension in small letters.
pub open spec fn lowered(ext: Option<Seq<char>>) -> Option<Seq<char>> {
    match ext {
        Some(e) => Some(lowercased(e)),
        None => None,
    }
}

/// The asset that a folder stands for, if it stands for one. The asset is named
/// after the folder and has the folder's sidecar flag. Its path is the declared
/// path joined onto `output_dir`; its extension is that of the path, in small
/// letters; its kind follows from the extension. A folder whose `pathname` file
/// declares nothing leaves path and extension empty.
pub open spec fn asset_of(entry: FolderEntryView, output_dir: Seq<char>) -> Option<AssetView> {
    if !entry.holds_asset() {
        None
    } else {
        let path = match declared_path(entry.files) {
            Some(line) => joined(output_dir, line),
            None => Seq::empty(),
        };
        let extension = match declared_path(entry.files) {
            Some(_) => lowered(extension_of(path)),
            None => None,
        };
        Some(
            AssetView {
                extension,
                guid: entry.name,
                path,
                has_meta: has_file(entry.files, "asset.meta"@),
                asset_type: kind_of_extension(extension),
            },
        )
    }
}

/// What a folder's listing says of the object in it.
pub struct FolderScan {
    pub declared: Option<String>,
    pub has_pathname: bool,
    pub has_asset: bool,
    pub has_meta: bool,
}

impl FolderEntry {
    /// Whether the first line of a file of this name is the declared path, so that
    /// whoever lists the folder knows which file to open.
    pub fn is_pathname_record(name: &str) -> (yes: bool)
        ensures
            yes == (name@ == "pathname"@),
    {
        reads_as(name, "pathname")
    }

    /// Reads the listing: which of the three known files are there, and the path
    /// that the folder declares.
    pub fn scan(&self) -> (found: FolderScan)
        ensures
            found.declared.deep_view() == declared_path(self@.files),
            found.has_pathname == has_file(self@.files, "pathname"@),
            found.has_asset == has_file(self@.files, "asset"@),
            found.has_meta == has_file(self@.files, "asset.meta"@),
    {
        let mut declared: Option<String> = None;
        let mut has_pathname = false;
        let mut has_asset = false;
        let mut has_meta = false;
        let ghost files = self@.files;
        let mut i: usize = 0;
        while i < self.files.len()
            invariant
                i <= self.files.len(),
                files == self@.files,
                files.len() == self.files.len(),
                declared.deep_view() == declared_path(files.take(i as int)),
                has_pathname == has_file(files.take(i as int), "pathname"@),
                has_asset == has_file(files.take(i as int), "asset"@),
                has_meta == has_file(files.take(i as int), "asset.meta"@),
            decreases self.files.len() - i,
        {
            let file = &self.files[i];
            proof {
                let before = files.take(i as int);
                let after = files.take(i + 1);
                assert(after.drop_last() == before);
                assert(after.last() == file@);
                lemma_has_file_push(before, after, "pathname"@);
                lemma_has_file_push(before, after, "asset"@);
                lemma_has_file_push(before, after, "asset.meta"@);
                reveal_strlit("pathname");
                reveal_strlit("asset");
                reveal_strlit("asset.meta");
                assert("pathname"@.len() == 8 && "asset"@.len() == 5 && "asset.meta"@.len() == 10);
            }
            if reads_as(file.name.as_str(), "pathname") {
                has_pathname = true;
                if let Some(line) = &file.first_line {
                    declared = Some(line.clone());
                }
            } else if reads_as(file.name.as_str(), "asset") {
                has_asset = true;
            } else if reads_as(file.name.as_str(), "asset.meta") {
                has_meta = true;
            }
            i += 1;
        }
        assert(files.take(i as int) == files);
        FolderScan { declared, has_pathname, has_asset, has_meta }
    }
}

/// A file is among `after` when it is among all but the last of them, or is the last.
proof fn lemma_has_file_push(before: Seq<FolderFileView>, after: Seq<FolderFileView>, name: Seq<char>)
    requires
        after.len() > 0,
        after.drop_last() == before,
    ensures
        has_file(after, name) == (has_file(before, name) || after.last().name == name),
{
    if has_file(before, name) {
        let i = choose|i: int| 0 <= i < before.len() && (#[trigger] before[i]).name == name;
        assert(after[i].name == name);
    }
    if after.last().name == name {
        assert(after[after.len() - 1].name == name);
    }
    if has_file(after, name) {
        let i = choose|i: int| 0 <= i < after.len() && (#[trigger] after[i]).name == name;
        if i < before.len() {
            assert(before[i].name == name);
        }
    }
}

impl Asset {
    /// The asset that goes to `path`, with the kind that `extension` gives it.
    pub fn new(guid: String, path: String, extension: Option<String>, has_meta: bool) -> (asset: Asset)
        ensures
            asset@ == (AssetView {
                extension: extension.deep_view(),
                guid: guid@,
                path: path@,
                has_meta,
                asset_type: kind_of_extension(extension.deep_view()),
            }),
    {
        let asset_type = AssetType::from_extension(&extension);
        Asset { extension, guid, path, has_meta, asset_type }
    }

    /// Reads an asset off one entry of the unpacked tree, as [`asset_of`] describes.
    /// Whatever the platform's path rules, an extension holds no dot.
    pub fn from_path(entry: &FolderEntry, output_dir: &str) -> (asset: Option<Asset>)
        ensures
            asset.deep_view() == asset_of(entry@, output_dir@),
            asset matches Some(a) ==> a@.well_formed(),
            asset matches Some(a) ==> (a@.extension matches Some(e) ==> !e.contains('.')),
    {
        if !entry.is_dir {
            return None;
        }
        let found = entry.scan();
        if !found.has_asset || !found.has_pathname {
            return None;
        }
        let (path, extension) = match &found.declared {
            Some(line) => {
                let path = paths::join(output_dir, line.as_str());
                let extension = match paths::extension(path.as_str()) {
                    Some(raw) => {
                        let lower = to_lowercase(raw.as_str());
                        proof {
                            lemma_lowercased_keeps_dots_out(raw@);
                        }
                        Some(lower)
                    },
                    None => None,
                };
                (path, extension)
            },
            None => (String::new(), None),
        };
        Some(Asset::new(entry.name.clone(), path, extension, found.has_meta))
    }
}

/// Making letters small brings no dot into a text.
proof fn lemma_lowercased_keeps_dots_out(s: Seq<char>)
    requires
        !s.contains('.'),
    ensures
        !lowercased(s).contains('.'),
{
    if lowercased(s).contains('.') {
        let i = choose|i: int| 0 <= i < lowercased(s).len() && lowercased(s)[i] == '.';
        assert(s[i] != '.');
        assert(lower_char(s[i]) == '.');
        assert(false);
    }
}

/// The GUID of the primary texture of an asset, given the objects of its file where
/// the file could be decoded: only a material has one, and only where the file
/// holds a material that names one.
pub open spec fn material_texture(
    kind: AssetKind,
    documents: Option<Vec<(i64, MaterialContainer)>>,
) -> Option<Seq<char>> {
    match documents {
        Some(objects) => if kind is Material {
            texture_of_documents(objects@)
        } else {
            None
        },
        None => None,
    }
}

impl Asset {
    /// Whether the file of this asset has to be read for its texture.
    pub fn is_material(&self) -> (yes: bool)
        ensures
            yes == (self@.asset_type is Material),
    {
        self.asset_type.is_material()
    }

    /// The GUID of the primary texture of this asset. `documents` holds the objects
    /// of its file, or nothing where the file could not be decoded. For an asset
    /// that is no material they are not looked at.
    pub fn try_get_mat_texture_guid(&self, documents: Option<Vec<(i64, MaterialContainer)>>) -> (guid:
        Option<String>)
        ensures
            guid.deep_view() == material_texture(self@.asset_type, documents),
    {
        if !self.asset_type.is_material() {
            return None;
        }
        match documents {
            Some(objects) => match read_single_material(objects) {
                Ok(material) => material.main_texture_guid(),
                Err(_) => None,
            },
            None => None,
        }
    }
}

} // verus!
