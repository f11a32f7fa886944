use photo_order::config::Delim;
use photo_order::name::{create_prefix, find_sub, get_prefix_len, num_to_string};
use photo_order::photo::{ExifData, PhotoFile};

fn record(name: &str) -> PhotoFile {
    PhotoFile::new(String::from(name), ExifData::NoTimestamp)
}

#[test]
fn test_create_prefix() {
    let actual = create_prefix(10, 3);
    assert_eq!(actual, String::from("010"));

    let actual = create_prefix(5, 3);
    assert_eq!(actual, String::from("005"));

    let actual = create_prefix(100, 2);
    assert_eq!(actual, String::from("100"));
}

#[test]
fn test_num_to_string() {
    assert_eq!(num_to_string(0), "0");
    assert_eq!(num_to_string(7), "7");
    assert_eq!(num_to_string(10), "10");
    assert_eq!(num_to_string(90210), "90210");
}

#[test]
fn test_prefix_len_is_digit_count() {
    assert_eq!(get_prefix_len(0), 1);
    assert_eq!(get_prefix_len(1), 1);
    assert_eq!(get_prefix_len(9), 1);
    assert_eq!(get_prefix_len(10), 2);
    assert_eq!(get_prefix_len(99), 2);
    assert_eq!(get_prefix_len(100), 3);
}

#[test]
fn test_create_prefixed_name() {
    let file = record("a.jpg");
    assert_eq!(file.create_prefixed_name(0, 1, "__"), "1__a.jpg");
    assert_eq!(file.create_prefixed_name(9, 3, "__"), "010__a.jpg");
    assert_eq!(file.create_prefixed_name(99, 2, "-"), "100-a.jpg");
}

#[test]
fn test_dry_run_is_idempotent() {
    let file = record("holiday.jpeg");
    let first = file.create_prefixed_name(4, 2, "__");
    let second = file.create_prefixed_name(4, 2, "__");
    assert_eq!(first, second);
    assert_eq!(first, "05__holiday.jpeg");
    assert_eq!(file.get_name(), "holiday.jpeg");
}

#[test]
fn test_rename_then_revert_round_trip() {
    let file = record("a.jpg");
    let renamed = file.create_prefixed_name(0, 1, "__");
    assert_eq!(renamed, "1__a.jpg");
    let renamed_record = record(&renamed);
    assert_eq!(
        renamed_record.create_reverted_name("__"),
        Some(String::from("a.jpg"))
    );

    let file = record("b.heic");
    let renamed = file.create_prefixed_name(11, 3, "__");
    assert_eq!(renamed, "012__b.heic");
    let renamed_record = record(&renamed);
    assert_eq!(
        renamed_record.create_reverted_name("__"),
        Some(String::from("b.heic"))
    );
}

#[test]
fn test_revert_without_delimiter_is_a_skip() {
    let file = record("a.jpg");
    assert_eq!(file.create_reverted_name("__"), None);
    assert_eq!(file.get_name(), "a.jpg");
}

#[test]
fn test_revert_uses_first_occurrence_and_fixed_offset() {
    // The offset after the matched position is always two characters,
    // whatever the delimiter's length.
    let file = record("1__a__b.jpg");
    assert_eq!(file.create_reverted_name("__"), Some(String::from("a__b.jpg")));
}

#[test]
fn test_find_sub() {
    assert_eq!(find_sub("ab__cd", "__"), Some(2));
    assert_eq!(find_sub("abcd", "__"), None);
    assert_eq!(find_sub("__", "__"), Some(0));
    assert_eq!(find_sub("a", "ab"), None);
}

#[test]
fn test_delim_rejects_empty() {
    assert!(Delim::new(String::new()).is_none());
    let d = Delim::new(String::from("__")).expect("non-empty delimiter");
    assert_eq!(d.as_str(), "__");
}

#[test]
fn test_is_supported_file() {
    assert!(PhotoFile::is_supported_file("a.jpg"));
    assert!(PhotoFile::is_supported_file("a.JPG"));
    assert!(PhotoFile::is_supported_file("b.Jpeg"));
    assert!(PhotoFile::is_supported_file("c.heic"));
    assert!(PhotoFile::is_supported_file("d.HEIF"));
    assert!(!PhotoFile::is_supported_file("a.txt"));
    assert!(!PhotoFile::is_supported_file("archive.jpg.zip"));
    assert!(!PhotoFile::is_supported_file("noextension"));
    assert!(!PhotoFile::is_supported_file(".jpg"));
    assert!(!PhotoFile::is_supported_file("photo."));
}
