//! References from one object of a package to another.

use vstd::prelude::*;

verus! {

/// A reference to an object in a file of the package.
#[derive(Debug, PartialEq, Eq, Default)]
pub struct FileReference {
    /// The number of the object within its file.
    pub file_id: i64,
    /// The GUID of the file; a reference into the same file has none.
    pub guid: Option<String>,
    /// The kind of the file, as Unity numbers it.
    pub file_type: Option<i64>,
}

impl FileReference {
    /// The GUID that the reference names.
    pub open spec fn guid_view(&self) -> Option<Seq<char>> {
        self.guid.deep_view()
    }

    /// A copy of the GUID that the reference names.
    pub fn guid(&self) -> (guid: Option<String>)
        ensures
            guid.deep_view() == self.guid_view(),
    {
        match &self.guid {
            Some(guid) => Some(guid.clone()),
            None => None,
        }
    }
}

} // verus!
