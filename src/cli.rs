//! Checks on the paths given on the command line.
use vstd::prelude::*;

use crate::path::FsPath;
use crate::search::{path_views, Vst2InstallationLocation};

verus! {

/// The options of the `set` command.
pub struct SetOptions {
    /// The directory that holds yabridge's libraries.
    pub path: Option<FsPath>,
    /// Find yabridge's libraries in the default places again.
    pub path_auto: bool,
    pub vst2_location: Option<Vst2InstallationLocation>,
    pub skip_checks: Option<bool>,
}

/// The options of the `sync` command.
#[derive(Debug, Clone, Copy, PartialEq, Eq, Structural)]
pub struct SyncOptions {
    /// Rewrite every target, even where it already holds what would be written.
    pub force: bool,
    /// Skip the checks after the sync.
    pub skip_checks: bool,
    /// Remove the leftovers found.
    pub prune: bool,
    /// Report each plugin and each skipped file.
    pub verbose: bool,
}

/// Accepts a path that exists.
pub fn parse_path(path: &str, exists: bool) -> (r: Result<String, String>)
    ensures
        exists ==> (r matches Ok(p) && p@ == path@),
        !exists ==> (r matches Err(m) && m@ == "File or directory could not be found."@),
{
    if exists {
        Ok(String::from_str(path))
    } else {
        Err(String::from_str("File or directory could not be found."))
    }
}

/// Accepts a path that exists and is a directory (or a link to one).
pub fn parse_directory_path(path: &str, exists: bool, is_dir: bool) -> (r: Result<String, String>)
    ensures
        exists && is_dir ==> (r matches Ok(p) && p@ == path@),
        exists && !is_dir ==> (r matches Err(m) && m@ == "Path is not a directory."@),
        !exists ==> (r matches Err(m) && m@ == "Directory could not be found."@),
{
    if exists {
        if is_dir {
            Ok(String::from_str(path))
        } else {
            Err(String::from_str("Path is not a directory."))
        }
    } else {
        Err(String::from_str("Directory could not be found."))
    }
}

/// Finds a given path among known ones: the path made absolute if it is listed as it is,
/// else the path with its links resolved.
pub fn parse_path_from_set(
    candidates: &Vec<FsPath>,
    absolute: &FsPath,
    normalized: &FsPath,
) -> (r: Option<FsPath>)
    ensures
        path_views(candidates@).contains(absolute@) ==> (r matches Some(p) && p@ == absolute@),
        !path_views(candidates@).contains(absolute@) && path_views(candidates@).contains(
            normalized@,
        ) ==> (r matches Some(p) && p@ == normalized@),
        !path_views(candidates@).contains(absolute@) && !path_views(candidates@).contains(
            normalized@,
        ) ==> r is None,
{
    match find_path(candidates, absolute) {
        Some(p) => Some(p),
        None => find_path(candidates, normalized),
    }
}

fn find_path(candidates: &Vec<FsPath>, wanted: &FsPath) -> (r: Option<FsPath>)
    ensures
        path_views(candidates@).contains(wanted@) ==> (r matches Some(p) && p@ == wanted@),
        !path_views(candidates@).contains(wanted@) ==> r is None,
{
    let mut i: usize = 0;
    while i < candidates.len()
        invariant
            i <= candidates@.len(),
            forall|k: int| 0 <= k < i ==> path_views(candidates@)[k] != wanted@,
        decreases candidates@.len() - i,
    {
        if candidates[i].same_as(wanted) {
            assert(path_views(candidates@)[i as int] == wanted@);
            return Some(candidates[i].duplicate());
        }
        i = i + 1;
    }
    None
}

/// Reads a VST2 installation location setting: `centralized` or `inline`.
pub fn parse_vst2_location(s: &str) -> (r: Option<Vst2InstallationLocation>)
    ensures
        s@ == "centralized"@ ==> r == Some(Vst2InstallationLocation::Centralized),
        s@ == "inline"@ ==> r == Some(Vst2InstallationLocation::Inline),
        s@ != "centralized"@ && s@ != "inline"@ ==> r is None,
{
    let given = String::from_str(s);
    proof {
        reveal_strlit("centralized");
        reveal_strlit("inline");
        assert("centralized"@.len() != "inline"@.len());
    }
    if given == String::from_str("centralized") {
        Some(Vst2InstallationLocation::Centralized)
    } else if given == String::from_str("inline") {
        Some(Vst2InstallationLocation::Inline)
    } else {
        None
    }
}

} // verus!
