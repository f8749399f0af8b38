//! Entries of a directory listing.

use crate::safe_path::{
    accepts, is_confined, is_rejection_of, normalize_web_path_as_file, normalized, root_dir,
    PathError, SafePath,
};
use vstd::prelude::*;

verus! {

/// One entry of a directory, as it is listed.
#[derive(Debug, PartialEq, Eq)]
pub struct DirEntry {
    pub name: String,
    pub directory: bool,
    /// The size in bytes. Directories have none.
    pub size: Option<u64>,
}

impl DirEntry {
    /// The entry for something called `name` that is a directory or not and
    /// whose length is reported as `len`.
    pub fn new(name: String, directory: bool, len: u64) -> (entry: DirEntry)
        ensures
            entry.name == name,
            entry.directory == directory,
            entry.size == (if directory {
                None
            } else {
                Some(len)
            }),
    {
        DirEntry {
            name,
            directory,
            size: if directory {
                None
            } else {
                Some(len)
            },
        }
    }
}

/// The directory that a listing of `web_path` reads: below the served
/// directory, wherever `web_path` points.
pub fn listed_dir(web_path: &str) -> (r: Result<SafePath, PathError>)
    ensures
        r is Ok <==> accepts(web_path@),
        match r {
            Ok(p) => p@ == seq![root_dir()] + normalized(web_path@) && is_confined(p@),
            Err(e) => is_rejection_of(e, web_path@),
        },
{
    normalize_web_path_as_file(web_path)
}

/// What was read of one entry of a directory.
#[derive(Debug, PartialEq, Eq)]
pub struct RawEntry {
    /// The name, or nothing where it is no text.
    pub name: Option<String>,
    pub directory: bool,
    /// The length that the file system reports.
    pub len: u64,
}

/// An entry whose name is no text.
#[derive(Debug, Clone, Copy, PartialEq, Eq, Structural)]
pub struct MalformedFileName;

/// The entry that is listed for `raw`, which has a name.
pub open spec fn listed(raw: RawEntry) -> DirEntry {
    DirEntry {
        name: raw.name->Some_0,
        directory: raw.directory,
        size: if raw.directory {
            None
        } else {
            Some(raw.len)
        },
    }
}

/// The listing for the entries read: one entry for each, in the order read,
/// unless one of them has no name.
pub fn list_dir(raw: &Vec<RawEntry>) -> (r: Result<Vec<DirEntry>, MalformedFileName>)
    ensures
        r is Ok <==> forall|i: int| 0 <= i < raw.len() ==> (#[trigger] raw@[i]).name is Some,
        r matches Ok(entries) ==> entries@ == raw@.map_values(|e: RawEntry| listed(e)),
{
    let mut entries: Vec<DirEntry> = Vec::new();
    let mut i: usize = 0;
    while i < raw.len()
        invariant
            i <= raw.len(),
            forall|j: int| 0 <= j < i ==> (#[trigger] raw@[j]).name is Some,
            entries@ == raw@.take(i as int).map_values(|e: RawEntry| listed(e)),
        decreases raw.len() - i,
    {
        match &raw[i].name {
            None => {
                return Err(MalformedFileName);
            },
            Some(name) => {
                entries.push(DirEntry::new(name.clone(), raw[i].directory, raw[i].len));
            },
        }
        proof {
            assert(entries@ =~= raw@.take(i + 1).map_values(|e: RawEntry| listed(e)));
        }
        i += 1;
    }
    proof {
        assert(raw@.take(raw.len() as int) =~= raw@);
    }
    Ok(entries)
}

} // verus!
