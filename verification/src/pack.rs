use vstd::prelude::*;

use crate::entries::dir_entry_name;
use crate::glob::{excluded_by_any, matches_exclude};

verus! {

/// What a path on disk is, as far as packing cares.
#[derive(Debug, Clone, Copy, PartialEq, Eq, Structural)]
pub enum EntryKind {
    File,
    Dir,
    Other,
}

/// What packing does with one path it meets.
#[derive(Debug)]
pub enum PackStep {
    /// Leave it out: an exclusion pattern names it.
    Skip,
    /// Store the file under this name.
    AddFile(String),
    /// Store a directory entry under this name.
    AddDir(String),
    /// Store nothing for it.
    Pass,
}

/// A zip archive leaves a path out when a pattern excludes it; the source path
/// itself only when its name is not empty.
pub open spec fn zip_skips(name: Seq<char>, patterns: Seq<String>, is_source: bool) -> bool {
    (!is_source || name.len() > 0) && excluded_by_any(patterns, name)
}

/// A zip archive skips exactly the excluded paths, except that the source path
/// with an empty name is never skipped.
pub proof fn lemma_zip_skips_excluded(name: Seq<char>, patterns: Seq<String>, is_source: bool)
    ensures
        !is_source ==> zip_skips(name, patterns, is_source) == excluded_by_any(patterns, name),
        is_source && name.len() > 0 ==> zip_skips(name, patterns, is_source) == excluded_by_any(patterns, name),
        is_source && name.len() == 0 ==> !zip_skips(name, patterns, is_source),
{
}

/// What packing into a zip archive does with a path stored under `name`:
/// excluded paths are skipped; files are added under their name; directories with
/// a non-empty name are added as `name/`; anything else stores nothing.
/// `is_source` tells the path given on the command line from those found under it.
pub fn zip_step(name: &str, kind: EntryKind, patterns: &[String], is_source: bool) -> (r: PackStep)
    ensures
        match r {
            PackStep::Skip => zip_skips(name@, patterns@, is_source),
            PackStep::AddFile(n) => !zip_skips(name@, patterns@, is_source) && kind == EntryKind::File && n@ == name@,
            PackStep::AddDir(n) => {
                &&& !zip_skips(name@, patterns@, is_source)
                &&& kind == EntryKind::Dir
                &&& name@.len() > 0
                &&& n@ == name@.push('/')
            },
            PackStep::Pass => {
                &&& !zip_skips(name@, patterns@, is_source)
                &&& (kind == EntryKind::Other || (kind == EntryKind::Dir && name@.len() == 0))
            },
        },
{
    if (!is_source || !name.is_empty()) && matches_exclude(name, patterns) {
        return PackStep::Skip;
    }
    match kind {
        EntryKind::File => PackStep::AddFile(name.to_owned()),
        EntryKind::Dir => {
            if name.is_empty() {
                PackStep::Pass
            } else {
                PackStep::AddDir(dir_entry_name(name))
            }
        },
        EntryKind::Other => PackStep::Pass,
    }
}

/// What packing into a tar archive does with a path stored under `name`:
/// excluded paths are skipped; files are added under their name; directories are
/// added as `name/`, or `./` when the name is empty; anything else stores nothing.
pub fn tar_step(name: &str, kind: EntryKind, patterns: &[String]) -> (r: PackStep)
    ensures
        match r {
            PackStep::Skip => excluded_by_any(patterns@, name@),
            PackStep::AddFile(n) => !excluded_by_any(patterns@, name@) && kind == EntryKind::File && n@ == name@,
            PackStep::AddDir(n) => {
                &&& !excluded_by_any(patterns@, name@)
                &&& kind == EntryKind::Dir
                &&& n@ == (if name@.len() == 0 { seq!['.', '/'] } else { name@.push('/') })
            },
            PackStep::Pass => !excluded_by_any(patterns@, name@) && kind == EntryKind::Other,
        },
{
    if matches_exclude(name, patterns) {
        return PackStep::Skip;
    }
    match kind {
        EntryKind::File => PackStep::AddFile(name.to_owned()),
        EntryKind::Dir => PackStep::AddDir(dir_entry_name(name)),
        EntryKind::Other => PackStep::Pass,
    }
}

} // verus!
