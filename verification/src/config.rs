//! The exclusion configuration and the predicate that prunes a walk.

use crate::entry::{Entry, EntryKind, EntryView};
use vstd::prelude::*;

verus! {

/// The `directories` section of a configuration.
#[derive(Clone, Debug, PartialEq, Eq)]
pub struct Directories {
    /// Paths of the directories that a walk does not enter.
    pub exclude: Vec<String>,
}

/// A scan's configuration. Its view is the set of excluded paths.
#[derive(Clone, Debug, PartialEq, Eq)]
pub struct ScanConfig {
    /// What the scan leaves out.
    pub directories: Directories,
}

impl View for ScanConfig {
    type V = Set<Seq<char>>;

    open spec fn view(&self) -> Set<Seq<char>> {
        Set::new(
            |path: Seq<char>|
                exists|i: int|
                    0 <= i < self.directories.exclude@.len()
                        && #[trigger] self.directories.exclude@[i]@ == path,
        )
    }
}

impl ScanConfig {
    /// The configuration that excludes the paths of `exclude`.
    pub fn new(exclude: Vec<String>) -> (config: ScanConfig)
        ensures
            config.directories.exclude == exclude,
    {
        ScanConfig { directories: Directories { exclude } }
    }

    /// Whether `path` is, character for character, one of the excluded
    /// paths.
    pub fn excludes(&self, path: &String) -> (listed: bool)
        ensures
            listed == self@.contains(path@),
    {
        let mut i: usize = 0;
        while i < self.directories.exclude.len()
            invariant
                i <= self.directories.exclude@.len(),
                forall|j: int| 0 <= j < i ==> self.directories.exclude@[j]@ != path@,
            decreases self.directories.exclude@.len() - i,
        {
            if self.directories.exclude[i] == *path {
                return true;
            }
            i += 1;
        }
        false
    }
}

/// Whether `entry` is a directory whose path is one of `excluded`.
pub open spec fn is_excluded(excluded: Set<Seq<char>>, entry: EntryView) -> bool {
    entry.kind is Directory && excluded.contains(entry.path)
}

/// Whether a walk leaves `entry` out and does not descend into it: `entry`
/// is a directory whose path is excluded by `config`. Nothing but a
/// directory is ever left out.
pub fn filter_folder(entry: &Entry, config: &ScanConfig) -> (excluded: bool)
    ensures
        excluded == is_excluded(config@, entry@),
{
    match entry.kind {
        EntryKind::Directory => config.excludes(&entry.path),
        _ => false,
    }
}

} // verus!
