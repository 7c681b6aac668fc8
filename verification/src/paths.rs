//! Path arithmetic, delegated to `std::path` and to `pathdiff`.
//!
//! Paths travel through the crate as strings. What a separator, a drive prefix or
//! a trailing dot means is decided by the functions wrapped here, by the rules of
//! the platform that the crate is built for. Each result is a function of the
//! arguments alone and bears a name; beside the name stands what holds of it
//! whatever the platform.

use vstd::prelude::*;
use crate::text::is_substring;

verus! {

/// What `Path::join` makes of `rel` on `base`.
pub uninterp spec fn joined(base: Seq<char>, rel: Seq<char>) -> Seq<char>;

/// What `Path::extension` finds in `path`.
pub uninterp spec fn extension_of(path: Seq<char>) -> Option<Seq<char>>;

/// What `Path::with_extension` makes of `path` with `ext`.
pub uninterp spec fn with_extension_of(path: Seq<char>, ext: Seq<char>) -> Seq<char>;

/// What `Path::file_name` finds in `path`.
pub uninterp spec fn file_name_of(path: Seq<char>) -> Option<Seq<char>>;

/// What `Path::with_file_name` makes of `path` with `name`.
pub uninterp spec fn with_file_name_of(path: Seq<char>, name: Seq<char>) -> Seq<char>;

/// The path that `diff_paths` finds from `base` to `path`.
pub uninterp spec fn relative_path(path: Seq<char>, base: Seq<char>) -> Option<Seq<char>>;

/// An extension holds no separator of paths.
pub open spec fn is_plain_extension(ext: Seq<char>) -> bool {
    !ext.contains('/') && !ext.contains('\\')
}

/// `Path::join` of `std`: `rel` appended to `base`, or `rel` alone where the
/// platform takes it for absolute. Both operands are UTF-8, and so is the result.
#[verifier::external_body]
pub(crate) fn join(base: &str, rel: &str) -> (path: String)
    ensures
        path@ == joined(base@, rel@),
{
    std::path::Path::new(base).join(rel).to_string_lossy().into_owned()
}

/// `Path::extension` of `std`: what follows the last dot of the final component,
/// if that component has a dot that is not its first character. An extension
/// therefore stands in the path behind a dot, and holds no dot itself.
#[verifier::external_body]
pub(crate) fn extension(path: &str) -> (ext: Option<String>)
    ensures
        ext.deep_view() == extension_of(path@),
        ext matches Some(e) ==> is_substring(seq!['.'] + e@, path@) && !e@.contains('.'),
{
    match std::path::Path::new(path).extension() {
        Some(ext) => Some(ext.to_string_lossy().into_owned()),
        None => None,
    }
}

/// `Path::with_extension` of `std`: the path with the extension of its final
/// component replaced by `ext`, or removed where `ext` is empty. It does not
/// return for an extension that holds a separator, hence the demand.
#[verifier::external_body]
pub(crate) fn with_extension(path: &str, ext: &str) -> (changed: String)
    requires
        is_plain_extension(ext@),
    ensures
        changed@ == with_extension_of(path@, ext@),
{
    std::path::Path::new(path).with_extension(ext).to_string_lossy().into_owned()
}

/// `Path::file_name` of `std`: the final component of the path, unless the path ends
/// in `..` or has no component. The empty path has none, and a component is never
/// empty.
#[verifier::external_body]
pub(crate) fn file_name(path: &str) -> (name: Option<String>)
    ensures
        name.deep_view() == file_name_of(path@),
        path@.len() == 0 ==> name is None,
        name matches Some(n) ==> n@.len() > 0,
{
    match std::path::Path::new(path).file_name() {
        Some(name) => Some(name.to_string_lossy().into_owned()),
        None => None,
    }
}

/// `Path::with_file_name` of `std`: the path with its final component replaced by
/// `name`.
#[verifier::external_body]
pub(crate) fn with_file_name(path: &str, name: &str) -> (changed: String)
    ensures
        changed@ == with_file_name_of(path@, name@),
{
    std::path::Path::new(path).with_file_name(name).to_string_lossy().into_owned()
}

/// `diff_paths` of `pathdiff`: a relative path that leads from `base` to `path`,
/// where the two can be related. It walks the components of both and drops those
/// they begin with alike, so the path from a place to itself is the empty one.
#[verifier::external_body]
pub(crate) fn get_relative_path(path: &str, base: &str) -> (relative: Option<String>)
    ensures
        relative.deep_view() == relative_path(path@, base@),
        path@ == base@ ==> relative.deep_view() == Some(Seq::<char>::empty()),
{
    match pathdiff::diff_paths(path, base) {
        Some(relative) => Some(relative.to_string_lossy().into_owned()),
        None => None,
    }
}

/// The extensions that the crate itself sets hold no separator.
pub proof fn lemma_known_extensions_are_plain()
    ensures
        is_plain_extension("glb"@),
        is_plain_extension(""@),
{
    reveal_strlit("glb");
    reveal_strlit("");
    assert("glb"@.len() == 3 && "glb"@[0] == 'g' && "glb"@[1] == 'l' && "glb"@[2] == 'b');
    assert(""@.len() == 0);
}

} // verus!
