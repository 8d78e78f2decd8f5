//! The scan as a state machine: it is handed what a walk yields, one event
//! at a time, and answers each with what the caller has to do.

use crate::config::{filter_folder, is_excluded, ScanConfig};
use crate::entry::{Entry, EntryKind, EntryKindView, EntryView};
use crate::file_info::{
    extract_metadata, extracted, file_views, FileInfo, FileInfoView, MetadataError,
};
use crate::order::{oldest_first, report_order};
use vstd::prelude::*;
use vstd::string::StringExecFns;

verus! {

/// What a walk yields.
#[derive(Clone, Debug, PartialEq, Eq)]
pub enum WalkEvent {
    /// An entry. A walk yields a directory before what lies in it.
    Entry(Entry),
    /// The walk could not go on at some point (a directory that it may not
    /// list, say); the text describes why.
    Failure(String),
}

/// The view of a [`WalkEvent`].
pub enum WalkEventView {
    Entry(EntryView),
    Failure(Seq<char>),
}

impl View for WalkEvent {
    type V = WalkEventView;

    open spec fn view(&self) -> WalkEventView {
        match *self {
            WalkEvent::Entry(entry) => WalkEventView::Entry(entry@),
            WalkEvent::Failure(description) => WalkEventView::Failure(description@),
        }
    }
}

/// What the caller does after an event.
#[derive(Clone, Debug, PartialEq, Eq)]
pub enum Action {
    /// Go on to the next event.
    Continue,
    /// Do not descend into the directory just handed in, then go on.
    Prune,
    /// Print the line, then go on.
    Print(String),
    /// Give the scan up: the file just handed in cannot be recorded.
    Abort(MetadataError),
}

/// The view of an [`Action`].
pub enum ActionView {
    Continue,
    Prune,
    Print(Seq<char>),
    Abort(MetadataError),
}

impl View for Action {
    type V = ActionView;

    open spec fn view(&self) -> ActionView {
        match *self {
            Action::Continue => ActionView::Continue,
            Action::Prune => ActionView::Prune,
            Action::Print(line) => ActionView::Print(line@),
            Action::Abort(error) => ActionView::Abort(error),
        }
    }
}

/// The state of a scan: the depth below which nothing is recorded, the
/// configuration in force, the depth of the excluded directory that the
/// walk is in, if it is in one, and the records made so far.
pub struct Scan {
    max_depth: usize,
    config: ScanConfig,
    pruned: Option<usize>,
    files: Vec<FileInfo>,
}

/// The view of a [`Scan`].
pub struct ScanView {
    pub max_depth: nat,
    pub config: Set<Seq<char>>,
    pub pruned: Option<nat>,
    pub files: Seq<FileInfoView>,
}

impl View for Scan {
    type V = ScanView;

    closed spec fn view(&self) -> ScanView {
        ScanView {
            max_depth: self.max_depth as nat,
            config: self.config@,
            pruned: match self.pruned {
                Some(depth) => Some(depth as nat),
                None => None,
            },
            files: file_views(self.files@),
        }
    }
}

/// The state before the first event.
pub open spec fn initial(max_depth: nat, config: Set<Seq<char>>) -> ScanView {
    ScanView { max_depth, config, pruned: None, files: Seq::empty() }
}

/// The line that reports a failure of the walk.
pub open spec fn error_text(description: Seq<char>) -> Seq<char> {
    "error "@ + description
}

/// Whether a scan in state `scan` passes over an entry at `depth`: it lies
/// deeper than the scan goes, or in the excluded directory that the walk is
/// in.
pub open spec fn passes_over(scan: ScanView, depth: nat) -> bool {
    ||| depth > scan.max_depth
    ||| scan.pruned matches Some(pruned) && depth > pruned
}

/// The state after `event`, and the action that answers it.
pub open spec fn react(scan: ScanView, event: WalkEventView) -> (ScanView, ActionView) {
    match event {
        WalkEventView::Failure(description) => (scan, ActionView::Print(error_text(description))),
        WalkEventView::Entry(entry) => if passes_over(scan, entry.depth) {
            (scan, ActionView::Continue)
        } else if is_excluded(scan.config, entry) {
            (ScanView { pruned: Some(entry.depth), ..scan }, ActionView::Prune)
        } else {
            match entry.kind {
                EntryKindView::File(metadata) => match extracted(entry.path, metadata) {
                    Ok(info) => (
                        ScanView { pruned: None, files: scan.files.push(info), ..scan },
                        ActionView::Continue,
                    ),
                    Err(error) => (ScanView { pruned: None, ..scan }, ActionView::Abort(error)),
                },
                _ => (ScanView { pruned: None, ..scan }, ActionView::Continue),
            }
        },
    }
}

/// The line that reports a failure of the walk: `error`, a space, and the
/// description.
pub fn error_line(description: &str) -> (line: String)
    ensures
        line@ == error_text(description@),
{
    let mut line = String::from_str("error ");
    line.append(description);
    line
}

impl Scan {
    /// A scan that records nothing deeper than `max_depth`, and excludes
    /// nothing until it is given a configuration.
    pub fn new(max_depth: usize) -> (scan: Scan)
        ensures
            scan@ == initial(max_depth as nat, Set::empty()),
    {
        let scan = Scan {
            max_depth,
            config: ScanConfig::new(Vec::new()),
            pruned: None,
            files: Vec::new(),
        };
        assert(scan@.files =~= Seq::empty());
        assert(scan@.config =~= Set::empty());
        scan
    }

    /// Puts `config` in force for the events to come.
    pub fn set_config(&mut self, config: ScanConfig)
        ensures
            final(self)@ == (ScanView { config: config@, ..old(self)@ }),
    {
        self.config = config;
    }

    /// The records made so far, in the order of the walk.
    pub fn files(&self) -> (files: &Vec<FileInfo>)
        ensures
            file_views(files@) == self@.files,
    {
        &self.files
    }

    /// Ends the scan and gives the records in the order in which the report
    /// prints them: oldest first, and of records of one instant the one
    /// found last.
    pub fn into_report(self) -> (report: Vec<FileInfo>)
        ensures
            exists|order: Seq<int>| oldest_first(self@.files, file_views(report@), order),
    {
        let ghost records = file_views(self.files@);
        let report = report_order(self.files);
        proof {
            let order = choose|order: Seq<int>| oldest_first(records, file_views(report@), order);
            assert(oldest_first(self@.files, file_views(report@), order));
        }
        report
    }

    /// Takes one event of the walk and says what to do about it.
    ///
    /// A failure of the walk is to be printed. An entry that lies too deep,
    /// or in an excluded directory, is passed over. Of the others, an
    /// excluded directory is to be pruned, and a regular file is recorded,
    /// or the scan given up where its metadata is incomplete.
    pub fn step(&mut self, event: &WalkEvent) -> (action: Action)
        ensures
            (final(self)@, action@) == react(old(self)@, event@),
    {
        match event {
            WalkEvent::Failure(description) => Action::Print(error_line(description.as_str())),
            WalkEvent::Entry(entry) => {
                let below_pruned = match self.pruned {
                    Some(pruned) => entry.depth > pruned,
                    None => false,
                };
                if entry.depth > self.max_depth || below_pruned {
                    return Action::Continue;
                }
                if filter_folder(entry, &self.config) {
                    self.pruned = Some(entry.depth);
                    return Action::Prune;
                }
                self.pruned = None;
                match &entry.kind {
                    EntryKind::File(metadata) => {
                        match extract_metadata(entry.path.as_str(), metadata) {
                            Ok(info) => {
                                let ghost record = info@;
                                self.files.push(info);
                                assert(self@.files =~= old(self)@.files.push(record));
                                Action::Continue
                            },
                            Err(error) => Action::Abort(error),
                        }
                    },
                    _ => Action::Continue,
                }
            },
        }
    }
}

} // verus!
