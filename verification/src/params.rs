//! What a scan is asked to do.

use vstd::prelude::*;

verus! {

/// The depth that stands for "no limit" in a recursive scan.
pub const RECURSIVE_DEPTH: usize = 1000;

/// The depth to which a scan goes: without recursion the root's own entries
/// and no further.
pub open spec fn depth_limit(recursive: bool) -> nat {
    if recursive {
        RECURSIVE_DEPTH as nat
    } else {
        1
    }
}

/// A request for one scan.
#[derive(Clone, Debug, Default, PartialEq, Eq)]
pub struct ScanParams {
    /// The root of the scan.
    pub path: String,
    /// Whether the scan descends into directories below the root.
    pub recursive: bool,
    /// Where the configuration is read from.
    pub config: String,
}

impl ScanParams {
    /// A request to scan the tree at `path`, going below its first level
    /// where `recursive` is set, under the configuration read from `config`.
    pub fn new(path: String, recursive: bool, config: String) -> (params: ScanParams)
        ensures
            params.path == path,
            params.recursive == recursive,
            params.config == config,
    {
        ScanParams { path, recursive, config }
    }

    /// The depth to hand to the walk.
    pub fn max_depth(&self) -> (depth: usize)
        ensures
            depth == depth_limit(self.recursive),
    {
        if self.recursive {
            RECURSIVE_DEPTH
        } else {
            1
        }
    }
}

} // verus!
