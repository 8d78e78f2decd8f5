//! The record kept of one regular file.

use crate::timestamp::Timestamp;
use vstd::prelude::*;

verus! {

/// What could be read of a file's metadata.
#[derive(Clone, Copy, Debug, PartialEq, Eq)]
pub struct RawMetadata {
    /// The file's size in bytes.
    pub len: u64,
    /// When the file was created, where the file system tells.
    pub created: Option<Timestamp>,
    /// When the file was last modified, where the file system tells.
    pub modified: Option<Timestamp>,
}

/// The view of a [`RawMetadata`].
pub struct RawMetadataView {
    pub len: nat,
    pub created: Option<int>,
    pub modified: Option<int>,
}

/// The view of an optional instant.
pub open spec fn instant_of(t: Option<Timestamp>) -> Option<int> {
    match t {
        Some(t) => Some(t@),
        None => None,
    }
}

impl View for RawMetadata {
    type V = RawMetadataView;

    open spec fn view(&self) -> RawMetadataView {
        RawMetadataView {
            len: self.len as nat,
            created: instant_of(self.created),
            modified: instant_of(self.modified),
        }
    }
}

impl RawMetadata {
    /// Metadata of a file of `len` bytes with these two instants, as far as
    /// they are known.
    pub fn new(len: u64, created: Option<Timestamp>, modified: Option<Timestamp>) -> (metadata:
        RawMetadata)
        ensures
            metadata.len == len,
            metadata.created == created,
            metadata.modified == modified,
    {
        RawMetadata { len, created, modified }
    }
}

/// Why a file could not be recorded.
#[derive(Clone, Copy, Debug, PartialEq, Eq, Structural)]
pub enum MetadataError {
    /// The file's metadata could not be read.
    Unreadable,
    /// The file system does not tell when the file was created.
    NoCreationTime,
    /// The file system does not tell when the file was last modified.
    NoModificationTime,
}

/// The record of one regular file.
#[derive(Clone, Debug, PartialEq, Eq)]
pub struct FileInfo {
    name: String,
    size: u64,
    created: Timestamp,
    modified: Timestamp,
}

/// The view of a [`FileInfo`]: its path, its size in bytes, and the two
/// instants in nanoseconds since the epoch.
pub struct FileInfoView {
    pub name: Seq<char>,
    pub size: nat,
    pub created: int,
    pub modified: int,
}

impl View for FileInfo {
    type V = FileInfoView;

    closed spec fn view(&self) -> FileInfoView {
        FileInfoView {
            name: self.name@,
            size: self.size as nat,
            created: self.created@,
            modified: self.modified@,
        }
    }
}

impl FileInfo {
    /// The record of the file at path `name`, `size` bytes long, created
    /// and last modified at the given instants.
    pub fn new(name: String, size: u64, created: Timestamp, modified: Timestamp) -> (info: FileInfo)
        ensures
            info@ == (FileInfoView {
                name: name@,
                size: size as nat,
                created: created@,
                modified: modified@,
            }),
    {
        FileInfo { name, size, created, modified }
    }

    /// The file's path.
    pub fn name(&self) -> (name: &String)
        ensures
            name@ == self@.name,
    {
        &self.name
    }

    /// The file's size in bytes.
    pub fn size(&self) -> (size: u64)
        ensures
            size == self@.size,
    {
        self.size
    }

    /// When the file was created.
    pub fn created(&self) -> (created: Timestamp)
        ensures
            created@ == self@.created,
    {
        self.created
    }

    /// When the file was last modified.
    pub fn modified(&self) -> (modified: Timestamp)
        ensures
            modified@ == self@.modified,
    {
        self.modified
    }
}

/// The views of a sequence of records.
pub open spec fn file_views(files: Seq<FileInfo>) -> Seq<FileInfoView> {
    files.map_values(|info: FileInfo| info@)
}

/// The record that `metadata` gives of the file at `path`.
pub open spec fn extracted(path: Seq<char>, metadata: Option<RawMetadataView>) -> Result<
    FileInfoView,
    MetadataError,
> {
    match metadata {
        None => Err(MetadataError::Unreadable),
        Some(metadata) => match (metadata.created, metadata.modified) {
            (None, _) => Err(MetadataError::NoCreationTime),
            (Some(_), None) => Err(MetadataError::NoModificationTime),
            (Some(created), Some(modified)) => Ok(
                FileInfoView { name: path, size: metadata.len, created, modified },
            ),
        },
    }
}

/// The view of an optional [`RawMetadata`].
pub open spec fn metadata_of(metadata: Option<RawMetadata>) -> Option<RawMetadataView> {
    match metadata {
        Some(metadata) => Some(metadata@),
        None => None,
    }
}

/// The view of what [`extract_metadata`] returns.
pub open spec fn extraction_of(result: Result<FileInfo, MetadataError>) -> Result<
    FileInfoView,
    MetadataError,
> {
    match result {
        Ok(info) => Ok(info@),
        Err(error) => Err(error),
    }
}

/// Makes the record of the regular file at `path` from what was read of its
/// metadata. Fails where the metadata could not be read, or lacks the
/// creation time, or lacks the modification time, in that order.
pub fn extract_metadata(path: &str, metadata: &Option<RawMetadata>) -> (result: Result<
    FileInfo,
    MetadataError,
>)
    ensures
        extraction_of(result) == extracted(path@, metadata_of(*metadata)),
{
    match metadata {
        None => Err(MetadataError::Unreadable),
        Some(metadata) => match metadata.created {
            None => Err(MetadataError::NoCreationTime),
            Some(created) => match metadata.modified {
                None => Err(MetadataError::NoModificationTime),
                Some(modified) => Ok(FileInfo::new(path.to_owned(), metadata.len, created, modified)),
            },
        },
    }
}

} // verus!
