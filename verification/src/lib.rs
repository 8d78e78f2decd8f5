//! Decision logic of a directory scanner: which entries of a walk are
//! recorded, how the records are ordered, and how they are rendered.
//!
//! The crate performs no I/O. A caller walks the file system, hands each
//! entry to a [`Scan`], carries out the [`Action`] it answers with, and at
//! the end prints the lines of the report.

pub mod config;
pub mod entry;
pub mod file_info;
pub mod line;
pub mod order;
pub mod params;
pub mod scan;
pub mod timestamp;
pub mod walk;

pub use config::{filter_folder, Directories, ScanConfig};
pub use entry::{Entry, EntryKind};
pub use file_info::{extract_metadata, FileInfo, MetadataError, RawMetadata};
pub use line::{decimal, format_line, report_line};
pub use order::{report_order, reversed, sort_newest_first};
pub use params::ScanParams;
pub use scan::{error_line, Action, Scan, WalkEvent};
pub use timestamp::{iso8601, Timestamp};
