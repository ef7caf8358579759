use lumen::media::{MediaKind, MediaRecord, Timestamp};
use lumen::rows::{record_from_row, row_from_record, RowError, StoredRow};

fn full_row() -> StoredRow {
    StoredRow {
        id: "67e55044-10b1-426f-9247-bb680e5fe0c8".to_string(),
        path: "/photos/a.png".to_string(),
        name: "a.png".to_string(),
        kind: "Image".to_string(),
        mime_type: Some("image/png".to_string()),
        size: Some(1234),
        width: Some(640),
        height: Some(480),
        duration_bits: Some(1.5f64.to_bits()),
        thumbnail_path: Some("/thumbs/a.jpg".to_string()),
        taken_date: Some("2024-01-01T12:30:45+00:00".to_string()),
        created_at: "2024-02-01T00:00:00.250+00:00".to_string(),
        updated_at: "2024-02-01T02:00:00+02:00".to_string(),
        tags: Some("[\"sea\",\"sun\"]".to_string()),
        album_ids: Some("[\"00000000-0000-4000-8000-00000000000f\"]".to_string()),
        face_count: Some(2),
    }
}

fn full_record() -> MediaRecord {
    MediaRecord {
        id: 0x67e55044_10b1_426f_9247_bb680e5fe0c8,
        path: "/photos/a.png".to_string(),
        name: "a.png".to_string(),
        kind: MediaKind::Image,
        mime_type: Some("image/png".to_string()),
        size: Some(1234),
        width: Some(640),
        height: Some(480),
        duration_bits: Some(1.5f64.to_bits()),
        thumbnail_path: Some("/thumbs/a.jpg".to_string()),
        taken_date: Some(Timestamp { secs: 1_704_112_245, nanos: 0 }),
        created_at: Timestamp { secs: 1_706_745_600, nanos: 250_000_000 },
        updated_at: Timestamp { secs: 1_706_745_600, nanos: 0 },
        tags: Some(vec!["sea".to_string(), "sun".to_string()]),
        album_ids: Some(vec![0x00000000_0000_4000_8000_00000000000f]),
        face_count: Some(2),
    }
}

#[test]
fn a_row_is_taken_over_column_by_column() {
    assert_eq!(record_from_row(full_row()), Ok(full_record()));
}

#[test]
fn a_record_is_written_column_by_column() {
    let row = row_from_record(&full_record()).unwrap();
    let mut expected = full_row();
    expected.updated_at = "2024-02-01T00:00:00+00:00".to_string();
    assert_eq!(row, expected);
}

#[test]
fn a_written_record_reads_back_as_it_was() {
    let record = full_record();
    assert_eq!(record_from_row(row_from_record(&record).unwrap()), Ok(record));
    let mut bare = full_record();
    bare.kind = MediaKind::Video;
    bare.mime_type = None;
    bare.size = None;
    bare.width = None;
    bare.height = None;
    bare.duration_bits = None;
    bare.thumbnail_path = None;
    bare.taken_date = None;
    bare.tags = None;
    bare.album_ids = None;
    bare.face_count = None;
    let row = row_from_record(&bare).unwrap();
    assert_eq!(row.kind, "Vedio");
    assert_eq!(row.taken_date, None);
    assert_eq!(row.tags, None);
    assert_eq!(row.album_ids, None);
    assert_eq!(record_from_row(row), Ok(bare));
}

#[test]
fn kinds_are_read_by_their_stored_names() {
    for (text, kind) in [
        ("Image", MediaKind::Image),
        ("Vedio", MediaKind::Video),
        ("Other", MediaKind::Other),
        ("Video", MediaKind::Other),
        ("image", MediaKind::Other),
        ("", MediaKind::Other),
    ] {
        let mut row = full_row();
        row.kind = text.to_string();
        assert_eq!(record_from_row(row).unwrap().kind, kind, "{text}");
    }
}

#[test]
fn a_row_fails_for_its_identifier_first() {
    let mut row = full_row();
    row.id = "not a uuid".to_string();
    row.created_at = "yesterday".to_string();
    row.updated_at = "today".to_string();
    assert_eq!(record_from_row(row), Err(RowError::InvalidId));
    assert_eq!(RowError::InvalidId.column(), 0);
}

#[test]
fn a_row_fails_for_its_time_of_making_before_its_time_of_change() {
    let mut row = full_row();
    row.created_at = "yesterday".to_string();
    row.updated_at = "today".to_string();
    assert_eq!(record_from_row(row), Err(RowError::InvalidCreatedAt));
    let mut row = full_row();
    row.updated_at = "2024-02-01 00:00:00".to_string();
    assert_eq!(record_from_row(row), Err(RowError::InvalidUpdatedAt));
    assert_eq!(RowError::InvalidCreatedAt.column(), 11);
    assert_eq!(RowError::InvalidUpdatedAt.column(), 12);
}

#[test]
fn other_columns_that_cannot_be_read_are_taken_as_empty() {
    let mut row = full_row();
    row.taken_date = Some("last summer".to_string());
    row.tags = Some("{\"not\":\"a list\"}".to_string());
    row.album_ids = Some("[\"not a uuid\"]".to_string());
    let record = record_from_row(row).unwrap();
    assert_eq!(record.taken_date, None);
    assert_eq!(record.tags, None);
    assert_eq!(record.album_ids, None);
}

#[test]
fn the_word_null_in_a_column_stands_for_nothing() {
    let mut row = full_row();
    row.taken_date = Some("null".to_string());
    row.tags = Some("null".to_string());
    row.album_ids = Some("null".to_string());
    let record = record_from_row(row).unwrap();
    assert_eq!(record.taken_date, None);
    assert_eq!(record.tags, None);
    assert_eq!(record.album_ids, None);
}

#[test]
fn numbers_are_taken_over_by_their_low_bits() {
    let mut row = full_row();
    row.size = Some(-1);
    row.width = Some(0x1_0000_0005);
    row.height = Some(-1);
    row.face_count = Some(0x2_0000_0000);
    let record = record_from_row(row).unwrap();
    assert_eq!(record.size, Some(u64::MAX));
    assert_eq!(record.width, Some(5));
    assert_eq!(record.height, Some(u32::MAX));
    assert_eq!(record.face_count, Some(0));
    let mut big = full_record();
    big.size = Some(u64::MAX);
    big.width = Some(u32::MAX);
    let row = row_from_record(&big).unwrap();
    assert_eq!(row.size, Some(-1));
    assert_eq!(row.width, Some(u32::MAX as i64));
}

#[test]
fn empty_lists_are_written_as_empty_arrays() {
    let mut record = full_record();
    record.tags = Some(Vec::new());
    record.album_ids = Some(Vec::new());
    let row = row_from_record(&record).unwrap();
    assert_eq!(row.tags.as_deref(), Some("[]"));
    assert_eq!(row.album_ids.as_deref(), Some("[]"));
}

#[test]
fn an_instant_without_a_date_cannot_be_written() {
    let mut record = full_record();
    record.created_at = Timestamp { secs: i64::MAX, nanos: 0 };
    assert_eq!(row_from_record(&record), Err(RowError::DateOutOfRange));
    let mut record = full_record();
    record.updated_at = Timestamp { secs: 0, nanos: 2_000_000_000 };
    assert_eq!(row_from_record(&record), Err(RowError::DateOutOfRange));
    let mut record = full_record();
    record.taken_date = Some(Timestamp { secs: i64::MIN, nanos: 0 });
    assert_eq!(row_from_record(&record), Err(RowError::DateOutOfRange));
    assert_eq!(RowError::DateOutOfRange.column(), 10);
}
