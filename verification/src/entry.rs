//! What a walk reports of one file system entry.

use crate::file_info::{RawMetadata, RawMetadataView};
use vstd::prelude::*;

verus! {

/// What an entry is.
#[derive(Clone, Copy, Debug, PartialEq, Eq)]
pub enum EntryKind {
    /// A directory, which a walk may descend into.
    Directory,
    /// A regular file, with its metadata as far as it could be read
    /// (`None`: not at all).
    File(Option<RawMetadata>),
    /// Anything else.
    Other,
}

/// The view of an [`EntryKind`].
pub enum EntryKindView {
    Directory,
    File(Option<RawMetadataView>),
    Other,
}

impl View for EntryKind {
    type V = EntryKindView;

    open spec fn view(&self) -> EntryKindView {
        match *self {
            EntryKind::Directory => EntryKindView::Directory,
            EntryKind::File(Some(metadata)) => EntryKindView::File(Some(metadata@)),
            EntryKind::File(None) => EntryKindView::File(None),
            EntryKind::Other => EntryKindView::Other,
        }
    }
}

/// One entry of a walk.
#[derive(Clone, Debug, PartialEq, Eq)]
pub struct Entry {
    /// The entry's path, as the walk renders it.
    pub path: String,
    /// How many directories lie between the root of the walk and the entry;
    /// the root itself has depth 0.
    pub depth: usize,
    /// What the entry is.
    pub kind: EntryKind,
}

/// The view of an [`Entry`].
pub struct EntryView {
    pub path: Seq<char>,
    pub depth: nat,
    pub kind: EntryKindView,
}

impl View for Entry {
    type V = EntryView;

    open spec fn view(&self) -> EntryView {
        EntryView { path: self.path@, depth: self.depth as nat, kind: self.kind@ }
    }
}

impl Entry {
    /// The entry of the given path, depth and kind.
    pub fn new(path: String, depth: usize, kind: EntryKind) -> (entry: Entry)
        ensures
            entry.path == path,
            entry.depth == depth,
            entry.kind == kind,
    {
        Entry { path, depth, kind }
    }
}

} // verus!
