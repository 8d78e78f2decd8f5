use dirscan::{
    error_line, Action, Entry, EntryKind, FileInfo, MetadataError, RawMetadata, Scan, ScanConfig,
    Timestamp, WalkEvent,
};

fn at(secs: i64) -> Timestamp {
    Timestamp::new(secs, 0).unwrap()
}

fn config(paths: &[&str]) -> ScanConfig {
    ScanConfig::new(paths.iter().map(|p| p.to_string()).collect())
}

fn dir(path: &str, depth: usize) -> WalkEvent {
    WalkEvent::Entry(Entry::new(path.to_string(), depth, EntryKind::Directory))
}

fn file(path: &str, depth: usize, size: u64, modified: i64) -> WalkEvent {
    let metadata = RawMetadata::new(size, Some(at(modified - 1)), Some(at(modified)));
    WalkEvent::Entry(Entry::new(path.to_string(), depth, EntryKind::File(Some(metadata))))
}

fn record(path: &str, size: u64, modified: i64) -> FileInfo {
    FileInfo::new(path.to_string(), size, at(modified - 1), at(modified))
}

fn names(files: &[FileInfo]) -> Vec<String> {
    files.iter().map(|f| f.name().clone()).collect()
}

/// Hands the events to a scan, one after the other, and collects the
/// actions.
fn drive(scan: &mut Scan, config: &ScanConfig, events: &[WalkEvent]) -> Vec<Action> {
    scan.set_config(config.clone());
    events.iter().map(|event| scan.step(event)).collect()
}

#[test]
fn new_scan_has_no_records() {
    let scan = Scan::new(1);
    assert!(scan.files().is_empty());
    assert!(scan.into_report().is_empty());
}

#[test]
fn error_line_puts_the_word_before_the_description() {
    assert_eq!(error_line("permission denied"), "error permission denied");
    assert_eq!(error_line(""), "error ");
}

#[test]
fn step_prints_a_failure_of_the_walk() {
    let mut scan = Scan::new(1000);
    let action = scan.step(&WalkEvent::Failure("IO error for root/x".to_string()));
    assert_eq!(action, Action::Print("error IO error for root/x".to_string()));
    assert!(scan.files().is_empty());
}

#[test]
fn step_records_a_regular_file() {
    let mut scan = Scan::new(1000);
    let action = scan.step(&file("root/a.txt", 1, 10, 50));
    assert_eq!(action, Action::Continue);
    assert_eq!(scan.files(), &vec![record("root/a.txt", 10, 50)]);
}

#[test]
fn step_records_the_root_when_it_is_a_file() {
    let mut scan = Scan::new(1);
    assert_eq!(scan.step(&file("a.txt", 0, 3, 50)), Action::Continue);
    assert_eq!(names(scan.files()), vec!["a.txt"]);
}

#[test]
fn step_passes_by_directories_and_other_entries() {
    let mut scan = Scan::new(1000);
    assert_eq!(scan.step(&dir("root", 0)), Action::Continue);
    let other = WalkEvent::Entry(Entry::new("root/link".to_string(), 1, EntryKind::Other));
    assert_eq!(scan.step(&other), Action::Continue);
    assert!(scan.files().is_empty());
}

#[test]
fn step_gives_up_on_unreadable_metadata() {
    let mut scan = Scan::new(1000);
    scan.step(&file("root/a.txt", 1, 10, 50));
    let unreadable =
        WalkEvent::Entry(Entry::new("root/b.txt".to_string(), 1, EntryKind::File(None)));
    assert_eq!(scan.step(&unreadable), Action::Abort(MetadataError::Unreadable));
    assert_eq!(names(scan.files()), vec!["root/a.txt"]);
}

#[test]
fn step_gives_up_on_missing_timestamps() {
    let mut scan = Scan::new(1000);
    let no_created = RawMetadata::new(1, None, Some(at(5)));
    let no_modified = RawMetadata::new(1, Some(at(5)), None);
    let first =
        WalkEvent::Entry(Entry::new("a".to_string(), 1, EntryKind::File(Some(no_created))));
    let second =
        WalkEvent::Entry(Entry::new("b".to_string(), 1, EntryKind::File(Some(no_modified))));
    assert_eq!(scan.step(&first), Action::Abort(MetadataError::NoCreationTime));
    assert_eq!(scan.step(&second), Action::Abort(MetadataError::NoModificationTime));
    assert!(scan.files().is_empty());
}

#[test]
fn step_prunes_an_excluded_directory() {
    let mut scan = Scan::new(1000);
    scan.set_config(config(&["root/skip"]));
    assert_eq!(scan.step(&dir("root", 0)), Action::Continue);
    assert_eq!(scan.step(&dir("root/skip", 1)), Action::Prune);
    assert_eq!(scan.step(&dir("root/keep", 1)), Action::Continue);
}

#[test]
fn step_prunes_an_excluded_root() {
    let mut scan = Scan::new(1000);
    let c = config(&["root"]);
    let actions = drive(&mut scan, &c, &[dir("root", 0), file("root/a.txt", 1, 1, 1)]);
    assert_eq!(actions, vec![Action::Prune, Action::Continue]);
    assert!(scan.files().is_empty());
}

#[test]
fn step_does_not_exclude_a_file_whose_path_is_listed() {
    let mut scan = Scan::new(1000);
    scan.set_config(config(&["root/a.txt"]));
    assert_eq!(scan.step(&file("root/a.txt", 1, 10, 50)), Action::Continue);
    assert_eq!(names(scan.files()), vec!["root/a.txt"]);
}

#[test]
fn flat_scan_records_nothing_below_depth_one() {
    let mut scan = Scan::new(1);
    let c = config(&[]);
    let events = [
        dir("root", 0),
        file("root/a.txt", 1, 1, 10),
        dir("root/sub", 1),
        file("root/sub/b.txt", 2, 2, 20),
        dir("root/sub/deep", 2),
        file("root/sub/deep/c.txt", 3, 3, 30),
        file("root/d.txt", 1, 4, 40),
    ];
    let actions = drive(&mut scan, &c, &events);
    assert!(actions.iter().all(|a| *a == Action::Continue));
    assert_eq!(names(scan.files()), vec!["root/a.txt", "root/d.txt"]);
}

#[test]
fn recursive_scan_records_every_file_once() {
    let mut scan = Scan::new(1000);
    let c = config(&[]);
    let events = [
        dir("root", 0),
        file("root/a.txt", 1, 1, 10),
        dir("root/sub", 1),
        file("root/sub/b.txt", 2, 2, 20),
        dir("root/sub/deep", 2),
        file("root/sub/deep/c.txt", 3, 3, 30),
        file("root/d.txt", 1, 4, 40),
    ];
    drive(&mut scan, &c, &events);
    assert_eq!(
        scan.files(),
        &vec![
            record("root/a.txt", 1, 10),
            record("root/sub/b.txt", 2, 20),
            record("root/sub/deep/c.txt", 3, 30),
            record("root/d.txt", 4, 40),
        ]
    );
    let report = scan.into_report();
    assert_eq!(report.len(), 4);
    for name in ["root/a.txt", "root/sub/b.txt", "root/sub/deep/c.txt", "root/d.txt"] {
        assert_eq!(report.iter().filter(|f| f.name() == name).count(), 1);
    }
}

#[test]
fn recursive_scan_stops_at_the_depth_it_was_given() {
    let mut scan = Scan::new(1000);
    let c = config(&[]);
    drive(&mut scan, &c, &[file("deep", 1000, 1, 1), file("deeper", 1001, 1, 1)]);
    assert_eq!(names(scan.files()), vec!["deep"]);
}

#[test]
fn scan_records_nothing_below_an_excluded_directory() {
    let mut scan = Scan::new(1000);
    let c = config(&["root/skip"]);
    // A walk that did not prune: the scan still passes over the subtree.
    let events = [
        dir("root", 0),
        file("root/a.txt", 1, 1, 10),
        dir("root/skip", 1),
        file("root/skip/b.txt", 2, 2, 20),
        dir("root/skip/inner", 2),
        file("root/skip/inner/c.txt", 3, 3, 30),
        file("root/z.txt", 1, 4, 40),
        dir("root/later", 1),
        file("root/later/e.txt", 2, 5, 50),
    ];
    let actions = drive(&mut scan, &c, &events);
    assert_eq!(actions[2], Action::Prune);
    assert_eq!(actions.iter().filter(|a| **a == Action::Prune).count(), 1);
    assert_eq!(names(scan.files()), vec!["root/a.txt", "root/z.txt", "root/later/e.txt"]);
}

#[test]
fn scan_matches_exclusions_by_exact_path() {
    let mut scan = Scan::new(1000);
    let c = config(&["skip"]);
    let events = [dir("root", 0), dir("root/skip", 1), file("root/skip/b.txt", 2, 2, 20)];
    let actions = drive(&mut scan, &c, &events);
    assert_eq!(actions, vec![Action::Continue, Action::Continue, Action::Continue]);
    assert_eq!(names(scan.files()), vec!["root/skip/b.txt"]);
}

#[test]
fn scan_goes_on_after_a_failure_inside_an_excluded_directory() {
    let mut scan = Scan::new(1000);
    let c = config(&["root/skip"]);
    let events = [
        dir("root", 0),
        dir("root/skip", 1),
        WalkEvent::Failure("denied".to_string()),
        file("root/skip/b.txt", 2, 2, 20),
        file("root/a.txt", 1, 1, 10),
    ];
    let actions = drive(&mut scan, &c, &events);
    assert_eq!(actions[2], Action::Print("error denied".to_string()));
    assert_eq!(names(scan.files()), vec!["root/a.txt"]);
}

#[test]
fn scan_leaves_an_excluded_directory_with_a_sibling_directory() {
    let mut scan = Scan::new(1000);
    let c = config(&["root/skip", "root/skip2"]);
    let events = [
        dir("root", 0),
        dir("root/skip", 1),
        file("root/skip/b.txt", 2, 2, 20),
        dir("root/keep", 1),
        file("root/keep/c.txt", 2, 3, 30),
        dir("root/skip2", 1),
        file("root/skip2/d.txt", 2, 4, 40),
    ];
    let actions = drive(&mut scan, &c, &events);
    assert_eq!(
        actions,
        vec![
            Action::Continue,
            Action::Prune,
            Action::Continue,
            Action::Continue,
            Action::Continue,
            Action::Prune,
            Action::Continue,
        ]
    );
    assert_eq!(names(scan.files()), vec!["root/keep/c.txt"]);
}

#[test]
fn new_scan_excludes_nothing() {
    let mut scan = Scan::new(1000);
    assert_eq!(scan.step(&dir("root/skip", 1)), Action::Continue);
    assert_eq!(scan.step(&file("root/skip/b.txt", 2, 2, 20)), Action::Continue);
    assert_eq!(names(scan.files()), vec!["root/skip/b.txt"]);
}

#[test]
fn set_config_changes_what_is_excluded_from_then_on() {
    let mut scan = Scan::new(1000);
    assert_eq!(scan.step(&dir("root/skip", 1)), Action::Continue);
    scan.set_config(config(&["root/skip"]));
    assert_eq!(scan.step(&dir("root/skip", 1)), Action::Prune);
    scan.set_config(config(&[]));
    assert_eq!(scan.step(&dir("root/skip", 1)), Action::Continue);
    assert!(scan.files().is_empty());
}

#[test]
fn same_events_give_the_same_report() {
    let c = config(&["root/skip"]);
    let events = [
        dir("root", 0),
        file("root/a.txt", 1, 1, 30),
        file("root/b.txt", 1, 2, 10),
        dir("root/skip", 1),
        file("root/c.txt", 1, 3, 30),
    ];
    let mut first = Scan::new(1000);
    let mut second = Scan::new(1000);
    let first_actions = drive(&mut first, &c, &events);
    let second_actions = drive(&mut second, &c, &events);
    assert_eq!(first_actions, second_actions);
    assert_eq!(first.into_report(), second.into_report());
}
