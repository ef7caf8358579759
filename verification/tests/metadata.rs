use lumen::media::{MediaKind, Timestamp};
use lumen::metadata::{
    build_media_record, create_media_record_fast, exif_date_text, extract_exif_date_fast,
    get_media_record, parse_capture_date, FileSnapshot,
};
use std::io::Cursor;

fn png_bytes(width: u32, height: u32) -> Vec<u8> {
    let picture = image::DynamicImage::ImageRgb8(image::RgbImage::new(width, height));
    let mut bytes = Vec::new();
    picture.write_to(&mut Cursor::new(&mut bytes), image::ImageFormat::Png).unwrap();
    bytes
}

fn exif_blob(date: &str) -> Vec<u8> {
    let field = exif::Field {
        tag: exif::Tag::DateTimeOriginal,
        ifd_num: exif::In::PRIMARY,
        value: exif::Value::Ascii(vec![date.as_bytes().to_vec()]),
    };
    let mut writer = exif::experimental::Writer::new();
    writer.push_field(&field);
    let mut out = Cursor::new(Vec::new());
    writer.write(&mut out, false).unwrap();
    out.into_inner()
}

fn snapshot(content: Vec<u8>, modified_secs: Option<u64>) -> FileSnapshot {
    FileSnapshot { size: content.len() as u64, modified_secs, content }
}

const NOW: Timestamp = Timestamp { secs: 1_700_000_000, nanos: 5 };

#[test]
fn a_record_is_made_from_what_was_read_of_the_file() {
    let file = snapshot(png_bytes(3, 2), Some(1_600_000_000));
    let record = build_media_record(
        "/photos/Holiday.PNG",
        &file,
        Some("/thumbs/Holiday.jpg".to_string()),
        42,
        NOW,
    )
    .unwrap();
    assert_eq!(record.id, 42);
    assert_eq!(record.path, "/photos/Holiday.PNG");
    assert_eq!(record.name, "Holiday.PNG");
    assert_eq!(record.kind, MediaKind::Image);
    assert_eq!(record.mime_type.as_deref(), Some("image/png"));
    assert_eq!(record.size, Some(file.content.len() as u64));
    assert_eq!(record.width, Some(3));
    assert_eq!(record.height, Some(2));
    assert_eq!(record.duration_bits, None);
    assert_eq!(record.thumbnail_path.as_deref(), Some("/thumbs/Holiday.jpg"));
    assert_eq!(record.taken_date, Some(Timestamp { secs: 1_600_000_000, nanos: 0 }));
    assert_eq!(record.created_at, NOW);
    assert_eq!(record.updated_at, NOW);
    assert_eq!(record.tags, None);
    assert_eq!(record.album_ids, None);
    assert_eq!(record.face_count, None);
}

#[test]
fn a_corrupt_image_still_gets_a_record_without_dimensions() {
    let file = snapshot(b"this is no picture".to_vec(), Some(10));
    let record = build_media_record("/photos/broken.jpg", &file, None, 1, NOW).unwrap();
    assert_eq!(record.width, None);
    assert_eq!(record.height, None);
    assert_eq!(record.thumbnail_path, None);
    assert_eq!(record.size, Some(18));
    assert_eq!(record.mime_type.as_deref(), Some("image/jpeg"));
    assert_eq!(record.taken_date, Some(Timestamp { secs: 10, nanos: 0 }));
}

#[test]
fn the_header_is_read_in_the_format_that_the_extension_names() {
    let file = snapshot(png_bytes(4, 4), None);
    let misnamed = build_media_record("/photos/really_png.jpg", &file, None, 1, NOW).unwrap();
    assert_eq!((misnamed.width, misnamed.height), (None, None));
    let unknown = build_media_record("/photos/picture.xyz", &file, None, 1, NOW).unwrap();
    assert_eq!((unknown.width, unknown.height), (None, None));
    assert_eq!(unknown.mime_type, None);
}

#[test]
fn without_any_date_the_capture_date_is_absent() {
    let file = snapshot(png_bytes(1, 1), None);
    let record = build_media_record("/photos/a.png", &file, None, 1, NOW).unwrap();
    assert_eq!(record.taken_date, None);
}

#[test]
fn a_time_of_modification_beyond_the_calendar_is_no_date() {
    let far = snapshot(png_bytes(1, 1), Some(u64::MAX));
    assert_eq!(build_media_record("/photos/a.png", &far, None, 1, NOW).unwrap().taken_date, None);
    let farther = snapshot(png_bytes(1, 1), Some(i64::MAX as u64));
    assert_eq!(
        build_media_record("/photos/a.png", &farther, None, 1, NOW).unwrap().taken_date,
        None
    );
}

#[test]
fn a_path_without_a_file_name_gets_no_record() {
    let file = snapshot(png_bytes(1, 1), None);
    assert_eq!(build_media_record("/", &file, None, 1, NOW), None);
    assert_eq!(build_media_record("/photos/..", &file, None, 1, NOW), None);
    assert_eq!(build_media_record("", &file, None, 1, NOW), None);
}

#[test]
fn a_vanished_file_gets_no_record() {
    assert_eq!(create_media_record_fast("/photos/a.png", None, None), None);
    let error = get_media_record("/photos/a.png", None, None).unwrap_err();
    assert_eq!(error, "无法处理文件: /photos/a.png");
}

#[test]
fn a_new_record_gets_a_fresh_identifier_and_the_current_time() {
    let file = snapshot(png_bytes(2, 2), Some(1));
    let first = create_media_record_fast("/photos/a.png", Some(&file), None).unwrap();
    let second = get_media_record("/photos/a.png", Some(&file), None).unwrap();
    assert_ne!(first.id, second.id);
    for record in [&first, &second] {
        assert_eq!((record.id >> 76) & 0xf, 4);
        assert_eq!((record.id >> 62) & 0x3, 2);
        assert_eq!(record.created_at, record.updated_at);
        assert!(record.created_at.secs > 1_600_000_000);
        assert_eq!(record.width, Some(2));
    }
}

#[test]
fn the_exif_capture_date_is_read_as_text() {
    let blob = exif_blob("2024:01:01 12:30:45");
    assert_eq!(exif_date_text(&blob).as_deref(), Some("2024-01-01 12:30:45"));
    assert_eq!(exif_date_text(&png_bytes(1, 1)), None);
    assert_eq!(exif_date_text(b""), None);
}

#[test]
fn a_capture_date_needs_a_time_zone() {
    let expected = Some(Timestamp { secs: 1_704_112_245, nanos: 0 });
    assert_eq!(parse_capture_date("2024-01-01T12:30:45Z"), expected);
    assert_eq!(parse_capture_date("2024-01-01 12:30:45Z"), expected);
    assert_eq!(parse_capture_date("2024-01-01 14:30:45+02:00"), expected);
    assert_eq!(
        parse_capture_date("2024-01-01T12:30:45.5Z"),
        Some(Timestamp { secs: 1_704_112_245, nanos: 500_000_000 })
    );
    assert_eq!(parse_capture_date("2024-01-01 12:30:45"), None);
    assert_eq!(parse_capture_date(""), None);
}

#[test]
fn an_exif_date_without_a_time_zone_leaves_the_time_of_modification() {
    let blob = exif_blob("2024:01:01 12:30:45");
    assert_eq!(extract_exif_date_fast(&blob), None);
    let file = snapshot(blob, Some(77));
    let record = build_media_record("/photos/a.tiff", &file, None, 1, NOW).unwrap();
    assert_eq!(record.taken_date, Some(Timestamp { secs: 77, nanos: 0 }));
}
