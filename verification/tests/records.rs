use dirscan::{extract_metadata, FileInfo, MetadataError, RawMetadata, Timestamp};

fn at(secs: i64, nanos: u32) -> Timestamp {
    Timestamp::new(secs, nanos).unwrap()
}

#[test]
fn new_keeps_every_field() {
    let info = FileInfo::new("root/a.txt".to_string(), 10, at(1, 2), at(3, 4));
    assert_eq!(info.name(), "root/a.txt");
    assert_eq!(info.size(), 10);
    assert_eq!(info.created(), at(1, 2));
    assert_eq!(info.modified(), at(3, 4));
}

#[test]
fn extract_metadata_makes_the_record() {
    let metadata = RawMetadata::new(20, Some(at(100, 0)), Some(at(200, 5)));
    let info = extract_metadata("root/b.txt", &Some(metadata)).unwrap();
    assert_eq!(info, FileInfo::new("root/b.txt".to_string(), 20, at(100, 0), at(200, 5)));
}

#[test]
fn extract_metadata_keeps_the_largest_size() {
    let metadata = RawMetadata::new(u64::MAX, Some(at(0, 0)), Some(at(0, 0)));
    let info = extract_metadata("", &Some(metadata)).unwrap();
    assert_eq!(info.size(), u64::MAX);
    assert_eq!(info.name(), "");
}

#[test]
fn extract_metadata_fails_without_metadata() {
    assert_eq!(extract_metadata("root/b.txt", &None), Err(MetadataError::Unreadable));
}

#[test]
fn extract_metadata_fails_without_creation_time() {
    let metadata = RawMetadata::new(20, None, Some(at(200, 5)));
    assert_eq!(extract_metadata("root/b.txt", &Some(metadata)), Err(MetadataError::NoCreationTime));
}

#[test]
fn extract_metadata_fails_without_modification_time() {
    let metadata = RawMetadata::new(20, Some(at(100, 0)), None);
    assert_eq!(
        extract_metadata("root/b.txt", &Some(metadata)),
        Err(MetadataError::NoModificationTime)
    );
}

#[test]
fn extract_metadata_reports_the_creation_time_first() {
    let metadata = RawMetadata::new(20, None, None);
    assert_eq!(extract_metadata("root/b.txt", &Some(metadata)), Err(MetadataError::NoCreationTime));
}
