//! What the caller asks of a run, and when that request can be served.

use vstd::prelude::*;
use vstd::string::*;
use crate::paths;
use crate::paths::extension_of;
use crate::text::{ends_with, ends_with_spec, is_substring, to_chars};

verus! {

/// The options of one run.
#[derive(Debug)]
pub struct Args {
    /// The package to unpack.
    pub input: String,
    /// The directory that receives the assets.
    pub output: String,
    /// The tool that converts models to binary glTF, if models are to be converted.
    pub fbx_to_gltf: Option<String>,
    /// Whether converted models take their base texture from the prefab's material.
    pub get_materials_from_prefabs: bool,
    /// Extensions that are left out of the catalog.
    pub ignore_extensions: Option<Vec<String>>,
    /// Whether metadata sidecars are placed beside the assets.
    pub copy_meta_files: bool,
}

impl Args {
    /// Two sets of options ask for the same.
    pub open spec fn same_as(&self, other: &Args) -> bool {
        &&& self.input@ == other.input@
        &&& self.output@ == other.output@
        &&& self.fbx_to_gltf.deep_view() == other.fbx_to_gltf.deep_view()
        &&& self.get_materials_from_prefabs == other.get_materials_from_prefabs
        &&& self.ignore_extensions.deep_view() == other.ignore_extensions.deep_view()
        &&& self.copy_meta_files == other.copy_meta_files
    }
}

impl Clone for Args {
    fn clone(&self) -> (copy: Self)
        ensures
            copy.same_as(self),
    {
        let ignore_extensions = match &self.ignore_extensions {
            Some(list) => {
                let mut copied: Vec<String> = Vec::new();
                let mut i: usize = 0;
                while i < list.len()
                    invariant
                        i <= list.len(),
                        copied.deep_view() == list.deep_view().take(i as int),
                    decreases list.len() - i,
                {
                    let ghost before = copied.deep_view();
                    copied.push(list[i].clone());
                    assert(copied.deep_view() =~= before.push(list[i as int]@));
                    assert(list.deep_view().take(i + 1) =~= before.push(list[i as int]@));
                    i += 1;
                }
                assert(list.deep_view().take(i as int) =~= list.deep_view());
                Some(copied)
            },
            None => None,
        };
        Args {
            input: self.input.clone(),
            output: self.output.clone(),
            fbx_to_gltf: match &self.fbx_to_gltf {
                Some(tool) => Some(tool.clone()),
                None => None,
            },
            get_materials_from_prefabs: self.get_materials_from_prefabs,
            ignore_extensions,
            copy_meta_files: self.copy_meta_files,
        }
    }
}

/// A file can be run when one of the three execute bits of its mode is set. A file
/// that could not be examined (`None`) cannot.
pub open spec fn executable_mode(mode: Option<u32>) -> bool {
    mode matches Some(bits) && bits & 0o111 != 0
}

/// Whether the permission bits `mode` of a file allow running it.
pub fn is_executable(mode: Option<u32>) -> (yes: bool)
    ensures
        yes == executable_mode(mode),
{
    match mode {
        Some(bits) => bits & 0o111 != 0,
        None => false,
    }
}

/// The path holds, behind a dot, a run without dots that ends in `exe`: only such a
/// path can have an extension that names a program.
pub open spec fn may_name_program(path: Seq<char>) -> bool {
    exists|ext: Seq<char>|
        #[trigger] is_substring(seq!['.'] + ext, path) && !ext.contains('.') && ends_with_spec(
            ext,
            "exe"@,
        )
}

/// A path names a program when it has an extension that ends in `exe`.
pub open spec fn names_program(path: Seq<char>) -> bool {
    extension_of(path) matches Some(ext) && ends_with_spec(ext, "exe"@)
}

/// Where permission bits say nothing, a file counts as a program when its
/// extension ends in `exe`. Which part of a path is its extension is up to the
/// platform's path rules; a path that holds no such part at all is no program.
pub fn is_executable_by_extension(path: &str) -> (yes: bool)
    ensures
        yes == names_program(path@),
        yes ==> may_name_program(path@),
{
    match paths::extension(path) {
        Some(ext) => {
            let yes = named_as_program(ext.as_str());
            assert(yes ==> is_substring(seq!['.'] + ext@, path@) && !ext@.contains('.')
                && ends_with_spec(ext@, "exe"@));
            yes
        },
        None => false,
    }
}

/// Whether an extension ends in `exe`.
pub fn named_as_program(ext: &str) -> (yes: bool)
    ensures
        yes == ends_with_spec(ext@, "exe"@),
{
    let ext = to_chars(ext);
    let suffix = to_chars("exe");
    ends_with(&ext, &suffix)
}

impl Args {
    /// The options can be served unless they name a conversion tool that cannot be run.
    pub open spec fn servable(&self, tool_is_executable: bool) -> bool {
        self.fbx_to_gltf is Some ==> tool_is_executable
    }

    /// Whether the options can be served. `tool_is_executable` is what was found
    /// out about the conversion tool; it is not looked at when none is named.
    pub fn is_servable(&self, tool_is_executable: bool) -> (yes: bool)
        ensures
            yes == self.servable(tool_is_executable),
    {
        self.fbx_to_gltf.is_none() || tool_is_executable
    }

    /// Lets the run start. Options that cannot be served are not to be brought
    /// here: whoever holds such options tells the user, in the words of
    /// [`Args::refusal`], and goes no further.
    pub fn check(&self, tool_is_executable: bool)
        requires
            self.servable(tool_is_executable),
    {
    }

    /// What to tell a user whose options cannot be served.
    pub fn refusal() -> (text: String)
        ensures
            text@ == "fbx_to_gltf require a path to executable"@,
    {
        String::from_str("fbx_to_gltf require a path to executable")
    }
}

} // verus!
