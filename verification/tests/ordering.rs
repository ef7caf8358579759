use lumen::media::{MediaKind, MediaRecord, Timestamp};
use lumen::ordering::{is_less_recent, sort_by_recency};

const T1: i64 = 1_700_000_000;
const T2: i64 = 1_700_000_100;
const T3: i64 = 1_700_000_200;
const JAN_2024: i64 = 1_704_067_200;
const JUN_2023: i64 = 1_685_577_600;

fn ordering_record(name: &str, taken: Option<Timestamp>, created_secs: i64) -> MediaRecord {
    MediaRecord {
        id: 1,
        path: format!("/photos/{name}"),
        name: name.to_string(),
        kind: MediaKind::Image,
        mime_type: None,
        size: None,
        width: None,
        height: None,
        duration_bits: None,
        thumbnail_path: None,
        taken_date: taken,
        created_at: Timestamp { secs: created_secs, nanos: 0 },
        updated_at: Timestamp { secs: created_secs, nanos: 0 },
        tags: None,
        album_ids: None,
        face_count: None,
    }
}

fn at(secs: i64) -> Option<Timestamp> {
    Some(Timestamp { secs, nanos: 0 })
}

fn names(records: &[MediaRecord]) -> Vec<String> {
    records.iter().map(|r| r.name.clone()).collect()
}

#[test]
fn dated_records_come_first_newest_first_and_undated_last() {
    let sorted = sort_by_recency(vec![
        ordering_record("undated", None, T3),
        ordering_record("june", at(JUN_2023), T2),
        ordering_record("january", at(JAN_2024), T1),
    ]);
    assert_eq!(names(&sorted), vec!["january", "june", "undated"]);
}

#[test]
fn equal_capture_dates_are_ordered_by_later_creation_first() {
    let sorted = sort_by_recency(vec![
        ordering_record("first", at(JAN_2024), T1),
        ordering_record("third", at(JAN_2024), T3),
        ordering_record("second", at(JAN_2024), T2),
        ordering_record("undated_old", None, T1),
        ordering_record("undated_new", None, T2),
    ]);
    assert_eq!(names(&sorted), vec!["third", "second", "first", "undated_new", "undated_old"]);
}

#[test]
fn records_of_equal_recency_keep_their_order() {
    let sorted = sort_by_recency(vec![
        ordering_record("a", at(JUN_2023), T1),
        ordering_record("b", at(JAN_2024), T1),
        ordering_record("c", at(JUN_2023), T1),
        ordering_record("d", at(JAN_2024), T1),
    ]);
    assert_eq!(names(&sorted), vec!["b", "d", "a", "c"]);
}

#[test]
fn nanoseconds_break_ties_between_seconds() {
    let early = Some(Timestamp { secs: JAN_2024, nanos: 1 });
    let late = Some(Timestamp { secs: JAN_2024, nanos: 2 });
    let sorted = sort_by_recency(vec![
        ordering_record("early", early, T1),
        ordering_record("late", late, T1),
    ]);
    assert_eq!(names(&sorted), vec!["late", "early"]);
}

#[test]
fn sorting_keeps_every_record() {
    let sorted = sort_by_recency(Vec::new());
    assert!(sorted.is_empty());
    let one = sort_by_recency(vec![ordering_record("only", None, T1)]);
    assert_eq!(names(&one), vec!["only"]);
}

#[test]
fn sorting_twice_changes_nothing() {
    let once = sort_by_recency(vec![
        ordering_record("a", None, T2),
        ordering_record("b", at(JUN_2023), T1),
        ordering_record("c", at(JAN_2024), T3),
        ordering_record("d", None, T3),
    ]);
    let twice = sort_by_recency(once.clone());
    assert_eq!(once, twice);
}

#[test]
fn less_recent_compares_date_then_creation() {
    let undated = ordering_record("u", None, T3);
    let june = ordering_record("j", at(JUN_2023), T1);
    let january = ordering_record("y", at(JAN_2024), T1);
    let january_later = ordering_record("z", at(JAN_2024), T2);
    assert!(is_less_recent(&undated, &june));
    assert!(is_less_recent(&june, &january));
    assert!(is_less_recent(&january, &january_later));
    assert!(!is_less_recent(&january, &january));
    assert!(!is_less_recent(&january, &undated));
}
