use photo_order::order::order_files;
use photo_order::photo::{ExifData, PhotoFile};

/// A minimal little-endian TIFF whose only field is the Exif IFD pointer,
/// leading to a single original date/time tag holding `stamp` (19
/// characters, ASCII, NUL-terminated).
fn tiff_with_datetime(stamp: &str) -> Vec<u8> {
    assert_eq!(stamp.len(), 19);
    let mut b: Vec<u8> = Vec::new();
    b.extend([0x49, 0x49, 0x2A, 0x00]); // "II", 42
    b.extend([8, 0, 0, 0]); // offset of the first image directory
    b.extend([1, 0]); // one entry
    b.extend([0x69, 0x87]); // the Exif IFD pointer tag
    b.extend([4, 0]); // type LONG
    b.extend([1, 0, 0, 0]); // one value
    b.extend([26, 0, 0, 0]); // offset of the Exif directory
    b.extend([0, 0, 0, 0]); // no further image directory
    b.extend([1, 0]); // one entry
    b.extend([0x03, 0x90]); // the original date/time tag
    b.extend([2, 0]); // type ASCII
    b.extend([20, 0, 0, 0]); // nineteen characters and a terminator
    b.extend([44, 0, 0, 0]); // offset of the characters
    b.extend([0, 0, 0, 0]); // no further directory
    b.extend(stamp.as_bytes().iter().copied());
    b.push(0);
    b
}

/// A minimal little-endian TIFF that parses fine but carries no original
/// date/time tag, only an image width.
fn tiff_without_datetime() -> Vec<u8> {
    let mut b: Vec<u8> = Vec::new();
    b.extend([0x49, 0x49, 0x2A, 0x00]);
    b.extend([8, 0, 0, 0]);
    b.extend([1, 0]);
    b.extend([0x00, 0x01]); // the image width tag
    b.extend([3, 0]); // type SHORT
    b.extend([1, 0, 0, 0]);
    b.extend([4, 0, 0, 0]); // width 4, stored inline
    b.extend([0, 0, 0, 0]);
    b
}

#[test]
fn test_timestamp_is_read_from_tiff_bytes() {
    let bytes = tiff_with_datetime("2023:01:02 03:04:05");
    let data = ExifData::from_bytes(&bytes);
    assert_eq!(
        data,
        ExifData::Timestamp(String::from("2023-01-02 03:04:05"))
    );
}

#[test]
fn test_missing_timestamp_tag() {
    let bytes = tiff_without_datetime();
    assert_eq!(ExifData::from_bytes(&bytes), ExifData::NoTimestamp);
}

#[test]
fn test_unparsable_container() {
    assert_eq!(ExifData::from_bytes(b"not an image"), ExifData::NoExif);
    assert_eq!(ExifData::from_bytes(&[]), ExifData::NoExif);
}

#[test]
fn test_timestamps_from_bytes_order_chronologically() {
    let early = ExifData::from_bytes(&tiff_with_datetime("2020:05:05 05:05:05"));
    let late = ExifData::from_bytes(&tiff_with_datetime("2021:01:01 00:00:00"));
    let files = vec![
        PhotoFile::new(String::from("late.jpg"), late),
        PhotoFile::new(String::from("early.jpg"), early),
    ];
    let ordered = order_files(files, false);
    let names: Vec<String> = ordered.iter().map(|f| f.get_name()).collect();
    assert_eq!(names, vec!["early.jpg", "late.jpg"]);
}
