//! What a scan keeps of a whole walk, stated over the events alone.

use crate::config::is_excluded;
use crate::entry::EntryKindView;
use crate::file_info::{extracted, FileInfoView};
use crate::line::report_text;
use crate::order::{lemma_order_keeps_every_record, lemma_report_order_is_unique, oldest_first};
use crate::params::depth_limit;
use crate::scan::{initial, react, ScanView, WalkEventView};
use vstd::prelude::*;

verus! {

/// The state of a scan that goes no deeper than `max_depth`, under the
/// configuration `config`, after the first `n` of `events`.
pub open spec fn state_after(
    max_depth: nat,
    config: Set<Seq<char>>,
    events: Seq<WalkEventView>,
    n: int,
) -> ScanView
    decreases n,
{
    if n <= 0 {
        initial(max_depth, config)
    } else {
        react(state_after(max_depth, config, events, n - 1), events[n - 1]).0
    }
}

/// The depth of the entry that `event` holds.
pub open spec fn depth_of(event: WalkEventView) -> nat {
    event->Entry_0.depth
}

/// Whether every entry after place `j` and before place `n` lies deeper
/// than the entry at `j`: the walk has not left that entry yet.
pub open spec fn still_inside(events: Seq<WalkEventView>, j: int, n: int) -> bool {
    forall|k: int|
        j < k < n && (#[trigger] events[k]) is Entry ==> depth_of(events[k]) > depth_of(events[j])
}

/// Whether the entry at place `i` lies below the entry at place `j`, in its
/// subtree: a walk yields a directory, then what lies in it, and only then
/// entries that are no deeper than the directory.
pub open spec fn lies_below(events: Seq<WalkEventView>, j: int, i: int) -> bool {
    &&& 0 <= j < i < events.len()
    &&& events[j] is Entry
    &&& events[i] is Entry
    &&& still_inside(events, j, i + 1)
}

/// Whether `event` is a directory that `config` excludes.
pub open spec fn is_excluded_directory(config: Set<Seq<char>>, event: WalkEventView) -> bool {
    event matches WalkEventView::Entry(entry) && is_excluded(config, entry)
}

/// Whether the entry at place `i` lies below an excluded directory.
pub open spec fn hidden(config: Set<Seq<char>>, events: Seq<WalkEventView>, i: int) -> bool {
    exists|j: int| lies_below(events, j, i) && is_excluded_directory(config, #[trigger] events[j])
}

/// The record that the regular file `event` gives.
pub open spec fn record_of(event: WalkEventView) -> FileInfoView {
    let entry = event->Entry_0;
    extracted(entry.path, entry.kind->File_0)->Ok_0
}

/// Whether the event at place `i` is one that a scan records: a regular
/// file with complete metadata, no deeper than `max_depth`, and not below
/// an excluded directory.
pub open spec fn recorded(
    max_depth: nat,
    config: Set<Seq<char>>,
    events: Seq<WalkEventView>,
    i: int,
) -> bool {
    &&& 0 <= i < events.len()
    &&& events[i] matches WalkEventView::Entry(entry)
    &&& entry.depth <= max_depth
    &&& entry.kind matches EntryKindView::File(metadata)
    &&& extracted(entry.path, metadata) is Ok
    &&& !hidden(config, events, i)
}

/// The places, among the first `n` of `events`, of those that a scan
/// records, in the order of the walk.
pub open spec fn sources(
    max_depth: nat,
    config: Set<Seq<char>>,
    events: Seq<WalkEventView>,
    n: int,
) -> Seq<int>
    decreases n,
{
    if n <= 0 {
        Seq::empty()
    } else if recorded(max_depth, config, events, n - 1) {
        sources(max_depth, config, events, n - 1).push(n - 1)
    } else {
        sources(max_depth, config, events, n - 1)
    }
}

/// How the state after `n` events stands to the events themselves. The
/// scan remembers the depth of an excluded directory exactly while the walk
/// is inside one, and then it is the outermost such directory; and its
/// records are those of the events at [`sources`].
spec fn tracks(
    scan: ScanView,
    max_depth: nat,
    config: Set<Seq<char>>,
    events: Seq<WalkEventView>,
    n: int,
) -> bool {
    &&& scan.max_depth == max_depth
    &&& scan.config == config
    &&& scan.pruned matches Some(pruned) ==> pruned <= max_depth
    &&& forall|j: int|
        0 <= j < n && is_excluded_directory(config, #[trigger] events[j]) && depth_of(events[j])
            <= max_depth && still_inside(events, j, n) ==> scan.pruned is Some
            && scan.pruned->Some_0 <= depth_of(events[j])
    &&& scan.pruned matches Some(pruned) ==> exists|j: int|
        0 <= j < n && is_excluded_directory(config, #[trigger] events[j]) && depth_of(events[j])
            == pruned && still_inside(events, j, n)
    &&& scan.files.len() == sources(max_depth, config, events, n).len()
    &&& forall|k: int|
        0 <= k < scan.files.len() ==> #[trigger] scan.files[k] == record_of(
            events[sources(max_depth, config, events, n)[k]],
        )
}

/// [`tracks`] holds after every event, by induction over the events.
proof fn lemma_tracks(
    max_depth: nat,
    config: Set<Seq<char>>,
    events: Seq<WalkEventView>,
    n: int,
)
    requires
        0 <= n <= events.len(),
    ensures
        tracks(state_after(max_depth, config, events, n), max_depth, config, events, n),
    decreases n,
{
    if n > 0 {
        lemma_tracks(max_depth, config, events, n - 1);
    }
}

/// A scan keeps, in the order of the walk, one record for each event that
/// [`recorded`] describes, and nothing else.
pub proof fn lemma_scan_records_each_file_once(
    max_depth: nat,
    config: Set<Seq<char>>,
    events: Seq<WalkEventView>,
)
    ensures
        ({
            let files = state_after(max_depth, config, events, events.len() as int).files;
            let places = sources(max_depth, config, events, events.len() as int);
            &&& files.len() == places.len()
            &&& forall|k: int|
                0 <= k < files.len() ==> recorded(max_depth, config, events, #[trigger] places[k])
                    && files[k] == record_of(events[places[k]])
            &&& forall|k: int, l: int|
                0 <= k < l < places.len() ==> #[trigger] places[k] < #[trigger] places[l]
            &&& forall|i: int|
                recorded(max_depth, config, events, i) ==> exists|k: int|
                    0 <= k < places.len() && #[trigger] places[k] == i
        }),
{
    let n = events.len() as int;
    lemma_tracks(max_depth, config, events, n);
    lemma_sources(max_depth, config, events, n);
}

/// The places in [`sources`] are those of the recorded events among the
/// first `n`, each once and in rising order.
proof fn lemma_sources(
    max_depth: nat,
    config: Set<Seq<char>>,
    events: Seq<WalkEventView>,
    n: int,
)
    requires
        0 <= n <= events.len(),
    ensures
        ({
            let places = sources(max_depth, config, events, n);
            &&& forall|k: int|
                0 <= k < places.len() ==> 0 <= #[trigger] places[k] < n && recorded(
                    max_depth,
                    config,
                    events,
                    places[k],
                )
            &&& forall|k: int, l: int|
                0 <= k < l < places.len() ==> #[trigger] places[k] < #[trigger] places[l]
            &&& forall|i: int|
                0 <= i < n && recorded(max_depth, config, events, i) ==> exists|k: int|
                    0 <= k < places.len() && #[trigger] places[k] == i
        }),
    decreases n,
{
    if n > 0 {
        lemma_sources(max_depth, config, events, n - 1);
        let earlier = sources(max_depth, config, events, n - 1);
        let places = sources(max_depth, config, events, n);
        assert forall|i: int| 0 <= i < n && recorded(max_depth, config, events, i) implies exists|
            k: int,
        |
            0 <= k < places.len() && #[trigger] places[k] == i by {
            if i < n - 1 {
                let k = choose|k: int| 0 <= k < earlier.len() && #[trigger] earlier[k] == i;
                assert(places[k] == i);
            } else {
                assert(places[places.len() - 1] == i);
            }
        }
    }
}

/// A scan that does not recurse records no file deeper than the root's own
/// entries.
pub proof fn lemma_flat_scan_stays_shallow(config: Set<Seq<char>>, events: Seq<WalkEventView>)
    ensures
        ({
            let depth = depth_limit(false);
            let files = state_after(depth, config, events, events.len() as int).files;
            let places = sources(depth, config, events, events.len() as int);
            &&& files.len() == places.len()
            &&& forall|k: int|
                0 <= k < files.len() ==> 0 <= #[trigger] places[k] < events.len()
                    && events[places[k]] is Entry && files[k] == record_of(events[places[k]])
                    && depth_of(events[places[k]]) <= 1
        }),
{
    lemma_scan_records_each_file_once(depth_limit(false), config, events);
}

/// No record of a scan is of a file below an excluded directory, nor is an
/// excluded directory itself ever recorded.
pub proof fn lemma_excluded_directories_hide_files(
    max_depth: nat,
    config: Set<Seq<char>>,
    events: Seq<WalkEventView>,
)
    ensures
        ({
            let files = state_after(max_depth, config, events, events.len() as int).files;
            let places = sources(max_depth, config, events, events.len() as int);
            &&& files.len() == places.len()
            &&& forall|k: int, j: int|
                0 <= k < files.len() && is_excluded_directory(config, #[trigger] events[j])
                    ==> files[k] == record_of(events[#[trigger] places[k]]) && places[k] != j
                    && !lies_below(events, j, places[k])
        }),
{
    lemma_scan_records_each_file_once(max_depth, config, events);
    let places = sources(max_depth, config, events, events.len() as int);
    assert forall|k: int, j: int|
        0 <= k < places.len() && is_excluded_directory(
            config,
            #[trigger] events[j],
        ) implies #[trigger] places[k] != j && !lies_below(events, j, places[k]) by {
        assert(!hidden(config, events, places[k]));
    }
}

/// The report of a scan has exactly one line for each event that
/// [`recorded`] describes, and no other line.
pub proof fn lemma_report_lists_each_file_once(
    max_depth: nat,
    config: Set<Seq<char>>,
    events: Seq<WalkEventView>,
    report: Seq<FileInfoView>,
    order: Seq<int>,
)
    requires
        oldest_first(
            state_after(max_depth, config, events, events.len() as int).files,
            report,
            order,
        ),
    ensures
        ({
            let places = sources(max_depth, config, events, events.len() as int);
            &&& report.len() == places.len()
            &&& order.len() == places.len()
            &&& forall|l: int|
                0 <= l < report.len() ==> 0 <= #[trigger] order[l] < places.len() && recorded(
                    max_depth,
                    config,
                    events,
                    places[order[l]],
                ) && report[l] == record_of(events[places[order[l]]])
            &&& forall|l: int, m: int|
                0 <= l < m < report.len() ==> places[#[trigger] order[l]]
                    != places[#[trigger] order[m]]
            &&& forall|i: int|
                recorded(max_depth, config, events, i) ==> exists|l: int|
                    0 <= l < report.len() && places[#[trigger] order[l]] == i
        }),
{
    let files = state_after(max_depth, config, events, events.len() as int).files;
    let places = sources(max_depth, config, events, events.len() as int);
    lemma_scan_records_each_file_once(max_depth, config, events);
    lemma_order_keeps_every_record(files, report, order);
    assert forall|i: int| recorded(max_depth, config, events, i) implies exists|l: int|
        0 <= l < report.len() && places[#[trigger] order[l]] == i by {
        let k = choose|k: int| 0 <= k < places.len() && #[trigger] places[k] == i;
        assert(order.contains(k));
        let l = choose|l: int| 0 <= l < order.len() && order[l] == k;
        assert(places[order[l]] == i);
    }
}

/// Scanning the same walk twice, with the same depth and configuration,
/// gives the same report, line for line.
pub proof fn lemma_same_walk_same_report(
    max_depth: nat,
    config: Set<Seq<char>>,
    events: Seq<WalkEventView>,
    first: Seq<FileInfoView>,
    first_order: Seq<int>,
    second: Seq<FileInfoView>,
    second_order: Seq<int>,
)
    requires
        oldest_first(
            state_after(max_depth, config, events, events.len() as int).files,
            first,
            first_order,
        ),
        oldest_first(
            state_after(max_depth, config, events, events.len() as int).files,
            second,
            second_order,
        ),
    ensures
        first == second,
        first.map_values(|file: FileInfoView| report_text(file)) == second.map_values(
            |file: FileInfoView| report_text(file),
        ),
{
    lemma_report_order_is_unique(
        state_after(max_depth, config, events, events.len() as int).files,
        first,
        first_order,
        second,
        second_order,
    );
}

} // verus!
