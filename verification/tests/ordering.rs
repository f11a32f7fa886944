use std::cmp::Ordering;

use photo_order::name::get_prefix_len;
use photo_order::order::order_files;
use photo_order::photo::{ExifData, PhotoFile};

fn ts(name: &str, stamp: &str) -> PhotoFile {
    PhotoFile::new(String::from(name), ExifData::Timestamp(String::from(stamp)))
}

fn names(files: &[PhotoFile]) -> Vec<String> {
    files.iter().map(|f| f.get_name()).collect()
}

const T1: &str = "2020-01-01 10:00:00";
const T2: &str = "2021-06-15 12:30:00";
const T3: &str = "2023-12-31 23:59:59";

#[test]
fn test_ascending_sort_is_chronological() {
    let files = vec![ts("x", T3), ts("y", T1), ts("z", T2)];
    let ordered = order_files(files, false);
    assert_eq!(names(&ordered), vec!["y", "z", "x"]);
}

#[test]
fn test_timestamp_sorts_before_missing_timestamp() {
    let with = ts("with", T1);
    let without = PhotoFile::new(String::from("without"), ExifData::NoTimestamp);
    assert_eq!(with.cmp(&without), Ordering::Less);
    assert_eq!(without.cmp(&with), Ordering::Greater);
}

#[test]
fn test_comparator_states() {
    let stamped = ts("a", T2);
    let no_file = PhotoFile::new(String::from("b"), ExifData::NoFile);
    let no_exif = PhotoFile::new(String::from("c"), ExifData::NoExif);
    let no_stamp = PhotoFile::new(String::from("d"), ExifData::NoTimestamp);

    // An unreadable file compares equal to everything.
    assert_eq!(no_file.cmp(&stamped), Ordering::Equal);
    assert_eq!(stamped.cmp(&no_file), Ordering::Equal);
    // A parsed container sorts before one that did not parse.
    assert_eq!(no_stamp.cmp(&no_exif), Ordering::Less);
    assert_eq!(no_exif.cmp(&no_stamp), Ordering::Greater);
    // Two timestamps compare lexically.
    assert_eq!(ts("e", T1).cmp(&ts("f", T3)), Ordering::Less);
    assert_eq!(ts("e", T3).cmp(&ts("f", T3)), Ordering::Equal);
}

#[test]
fn test_stable_sort_keeps_listing_order_of_ties() {
    let files = vec![ts("first", T1), ts("second", T1), ts("third", T1)];
    let ordered = order_files(files, false);
    assert_eq!(names(&ordered), vec!["first", "second", "third"]);
}

#[test]
fn test_descending_reverses_the_sorted_sequence() {
    // Ties are reversed as a block with everything else, which tells a
    // whole-sequence reversal apart from a re-sort with an inverted
    // comparator (that would keep "a" before "b").
    let files = vec![ts("a", T1), ts("b", T1), ts("c", T2)];
    let ordered = order_files(files, true);
    assert_eq!(names(&ordered), vec!["c", "b", "a"]);
}

#[test]
fn test_empty_listing_stays_empty() {
    assert!(order_files(Vec::new(), false).is_empty());
    assert!(order_files(Vec::new(), true).is_empty());
}

#[test]
fn test_end_to_end_rename_and_revert() {
    let listing = vec![
        ts("b.jpg", T2),
        ts("a.jpg", T1),
        PhotoFile::new(String::from("c.jpg"), ExifData::NoTimestamp),
    ];
    let ordered = order_files(listing, false);
    let prefix_len = get_prefix_len(ordered.len());
    assert_eq!(prefix_len, 1);

    let mut renamed = Vec::new();
    for (index, file) in ordered.iter().enumerate() {
        renamed.push(file.create_prefixed_name(index, prefix_len, "__"));
    }
    assert_eq!(renamed, vec!["1__a.jpg", "2__b.jpg", "3__c.jpg"]);

    let mut reverted = Vec::new();
    for new_name in renamed.iter() {
        let record = PhotoFile::new(new_name.clone(), ExifData::NoFile);
        reverted.push(record.create_reverted_name("__").expect("delimiter present"));
    }
    assert_eq!(reverted, vec!["a.jpg", "b.jpg", "c.jpg"]);
}
