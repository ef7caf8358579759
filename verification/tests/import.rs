use lumen::import::{
    collect_present, get_media_records, get_media_records_with_db, read_images_in_dir,
    select_supported, split_by_catalog, ImportEvent, ImportFlow, ImportKind, Lookup, ScannedEntry,
};
use lumen::media::{MediaKind, MediaRecord, Timestamp};
use lumen::progress::Step;

fn import_record(path: &str, taken_secs: Option<i64>, created_secs: i64) -> MediaRecord {
    MediaRecord {
        id: created_secs as u128,
        path: path.to_string(),
        name: path.rsplit('/').next().unwrap().to_string(),
        kind: MediaKind::Image,
        mime_type: Some("image/png".to_string()),
        size: Some(10),
        width: Some(1),
        height: Some(1),
        duration_bits: None,
        thumbnail_path: None,
        taken_date: taken_secs.map(|secs| Timestamp { secs, nanos: 0 }),
        created_at: Timestamp { secs: created_secs, nanos: 0 },
        updated_at: Timestamp { secs: created_secs, nanos: 0 },
        tags: None,
        album_ids: None,
        face_count: None,
    }
}

fn file(path: &str) -> ScannedEntry {
    ScannedEntry { path: path.to_string(), is_file: true }
}

fn texts(items: &[&str]) -> Vec<String> {
    items.iter().map(|s| s.to_string()).collect()
}

fn paths_of(records: &[MediaRecord]) -> Vec<String> {
    records.iter().map(|r| r.path.clone()).collect()
}

#[test]
fn the_scanner_takes_regular_files_of_supported_formats_in_listing_order() {
    let entries = vec![
        file("/p/b.JPG"),
        file("/p/notes.txt"),
        ScannedEntry { path: "/p/dir.png".to_string(), is_file: false },
        file("/p/a.png"),
        file("/p/c.webp"),
        file("/p/d"),
    ];
    assert_eq!(select_supported(&entries), texts(&["/p/b.JPG", "/p/a.png", "/p/c.webp"]));
    assert_eq!(select_supported(&Vec::new()), Vec::<String>::new());
}

#[test]
fn the_dedup_filter_reuses_found_records_and_queues_the_rest() {
    let paths = texts(&["/p/a.png", "/p/b.png", "/p/c.png", "/p/d.png"]);
    let known = import_record("/p/b.png", Some(5), 50);
    let lookups =
        vec![Lookup::NotFound, Lookup::Found(known.clone()), Lookup::Failed, Lookup::NotFound];
    let (existing, pending) = split_by_catalog(&paths, lookups);
    assert_eq!(existing, vec![known]);
    assert_eq!(pending, texts(&["/p/a.png", "/p/c.png", "/p/d.png"]));
}

#[test]
fn a_missing_lookup_counts_as_not_found() {
    let paths = texts(&["/p/a.png", "/p/b.png"]);
    let (existing, pending) = split_by_catalog(&paths, vec![Lookup::NotFound]);
    assert!(existing.is_empty());
    assert_eq!(pending, paths);
}

#[test]
fn present_values_are_collected_in_order() {
    assert_eq!(collect_present(vec![Some(1), None, Some(3), None, Some(5)]), vec![1, 3, 5]);
    assert_eq!(collect_present(Vec::<Option<u8>>::new()), Vec::<u8>::new());
}

#[test]
fn a_directory_import_passes_through_every_step() {
    let mut flow = read_images_in_dir();
    assert_eq!(flow.step(), Step::Scanning);
    assert_eq!(flow.total(), 0);
    let opening = flow.opening_event();
    assert_eq!((opening.current, opening.total, opening.step.as_str()), (0, 0, "scanning"));

    let entries = vec![file("/p/a.png"), file("/p/b.jpg"), file("/p/readme.md"), file("/p/c.gif")];
    assert_eq!(flow.advance(ImportEvent::Listed(entries)), Step::CheckingDatabase);
    assert_eq!(flow.candidates(), &texts(&["/p/a.png", "/p/b.jpg", "/p/c.gif"]));
    assert_eq!(flow.total(), 3);

    let known = import_record("/p/b.jpg", Some(100), 1);
    let lookups = vec![Lookup::NotFound, Lookup::Found(known.clone()), Lookup::Failed];
    assert_eq!(flow.advance(ImportEvent::Checked(lookups)), Step::GeneratingThumbnails);
    assert_eq!(flow.pending(), &texts(&["/p/a.png", "/p/c.gif"]));
    assert_eq!(flow.total(), 2);

    let thumbnails = vec![Some("/t/a.jpg".to_string()), None];
    assert_eq!(
        flow.advance(ImportEvent::ThumbnailsReady(thumbnails.clone())),
        Step::ExtractingMetadata
    );
    assert_eq!(flow.thumbnails(), &thumbnails);
    assert_eq!(flow.total(), 2);

    let a = import_record("/p/a.png", Some(300), 2);
    let c = import_record("/p/c.gif", None, 3);
    assert_eq!(
        flow.advance(ImportEvent::MetadataReady(vec![Some(a.clone()), Some(c.clone())])),
        Step::SavingToDatabase
    );
    assert_eq!(flow.fresh(), &vec![a.clone(), c.clone()]);
    assert_eq!(flow.total(), 2);

    assert_eq!(flow.advance(ImportEvent::Saved), Step::Completed);
    let closing = flow.opening_event();
    assert_eq!((closing.current, closing.total, closing.step.as_str()), (3, 3, "completed"));
    assert_eq!(paths_of(&flow.finish()), texts(&["/p/a.png", "/p/b.jpg", "/p/c.gif"]));
}

#[test]
fn an_unreadable_or_empty_directory_completes_at_once() {
    let mut flow = read_images_in_dir();
    assert_eq!(flow.advance(ImportEvent::Listed(Vec::new())), Step::Completed);
    let closing = flow.opening_event();
    assert_eq!((closing.current, closing.total, closing.step.as_str()), (0, 0, "completed"));
    assert!(flow.finish().is_empty());
}

#[test]
fn an_import_of_no_paths_is_complete_from_the_start() {
    let flow = get_media_records_with_db(Vec::new());
    assert_eq!(flow.step(), Step::Completed);
    assert!(flow.finish().is_empty());
    let plain = get_media_records(Vec::new());
    assert_eq!(plain.step(), Step::Completed);
    assert!(plain.finish().is_empty());
}

#[test]
fn a_repeated_import_finds_everything_and_does_no_work() {
    let first = import_record("/p/a.png", Some(10), 1);
    let second = import_record("/p/b.png", Some(20), 2);

    // First run: nothing is catalogued yet.
    let mut flow = get_media_records_with_db(texts(&["/p/a.png", "/p/b.png"]));
    assert_eq!(flow.step(), Step::CheckingDatabase);
    flow.advance(ImportEvent::Checked(vec![Lookup::NotFound, Lookup::NotFound]));
    flow.advance(ImportEvent::ThumbnailsReady(vec![None, None]));
    flow.advance(ImportEvent::MetadataReady(vec![Some(first.clone()), Some(second.clone())]));
    assert_eq!(flow.step(), Step::SavingToDatabase);
    let catalog: Vec<MediaRecord> = flow.fresh().clone();
    flow.advance(ImportEvent::Saved);
    let first_result = flow.finish();

    // Second run: the catalog answers with what the first run stored.
    let mut again = get_media_records_with_db(texts(&["/p/a.png", "/p/b.png"]));
    let lookups = catalog.iter().cloned().map(Lookup::Found).collect();
    assert_eq!(again.advance(ImportEvent::Checked(lookups)), Step::Completed);
    assert!(again.pending().is_empty());
    assert!(again.fresh().is_empty());
    assert_eq!(again.finish(), first_result);
}

#[test]
fn a_catalogued_path_is_not_processed_again() {
    let known = import_record("/p/known.png", Some(7), 70);
    let mut flow = read_images_in_dir();
    flow.advance(ImportEvent::Listed(vec![file("/p/new.png"), file("/p/known.png")]));
    flow.advance(ImportEvent::Checked(vec![Lookup::NotFound, Lookup::Found(known.clone())]));
    assert_eq!(flow.pending(), &texts(&["/p/new.png"]));
    flow.advance(ImportEvent::ThumbnailsReady(vec![None]));
    flow.advance(ImportEvent::MetadataReady(vec![None]));
    assert_eq!(flow.step(), Step::Completed);
    assert_eq!(flow.finish(), vec![known]);
}

#[test]
fn one_unreadable_file_among_ten_costs_one_record() {
    let names: Vec<String> = (0..10).map(|i| format!("/p/{i}.png")).collect();
    let mut flow = get_media_records(names.clone());
    assert_eq!(flow.step(), Step::GeneratingThumbnails);
    assert_eq!(flow.pending(), &names);
    flow.advance(ImportEvent::ThumbnailsReady(vec![None; 10]));
    let results: Vec<Option<MediaRecord>> = names
        .iter()
        .enumerate()
        .map(|(i, path)| if i == 4 { None } else { Some(import_record(path, None, i as i64)) })
        .collect();
    assert_eq!(flow.advance(ImportEvent::MetadataReady(results)), Step::Completed);
    let records = flow.finish();
    assert_eq!(records.len(), 9);
    assert!(records.iter().all(|r| r.path != "/p/4.png"));
}

#[test]
fn an_import_without_the_catalog_returns_records_as_they_come() {
    let mut flow = get_media_records(texts(&["/p/old.png", "/p/new.png"]));
    flow.advance(ImportEvent::ThumbnailsReady(vec![None, None]));
    let old = import_record("/p/old.png", Some(1), 1);
    let new = import_record("/p/new.png", Some(2), 2);
    assert_eq!(
        flow.advance(ImportEvent::MetadataReady(vec![Some(old.clone()), Some(new.clone())])),
        Step::Completed
    );
    assert_eq!(flow.finish(), vec![old, new]);
}

#[test]
fn nothing_is_saved_when_no_record_could_be_made() {
    let mut flow = get_media_records_with_db(texts(&["/p/gone.png"]));
    flow.advance(ImportEvent::Checked(vec![Lookup::Failed]));
    flow.advance(ImportEvent::ThumbnailsReady(vec![None]));
    assert_eq!(flow.advance(ImportEvent::MetadataReady(vec![None])), Step::Completed);
    assert!(flow.finish().is_empty());
}

#[test]
fn a_report_out_of_turn_changes_nothing() {
    let mut flow = get_media_records_with_db(texts(&["/p/a.png"]));
    assert_eq!(flow.advance(ImportEvent::Saved), Step::CheckingDatabase);
    assert_eq!(flow.advance(ImportEvent::ThumbnailsReady(vec![None])), Step::CheckingDatabase);
    assert_eq!(flow.advance(ImportEvent::Listed(vec![file("/p/b.png")])), Step::CheckingDatabase);
    assert_eq!(flow.candidates(), &texts(&["/p/a.png"]));
}

#[test]
fn the_start_states_what_each_kind_of_import_does_first() {
    assert_eq!(ImportFlow::start(ImportKind::Directory, texts(&["/ignored.png"])).step(), Step::Scanning);
    assert_eq!(ImportFlow::start(ImportKind::Paths, texts(&["/a.png"])).step(), Step::GeneratingThumbnails);
    assert_eq!(ImportFlow::start(ImportKind::PathsDeduped, texts(&["/a.png"])).step(), Step::CheckingDatabase);
}

#[test]
fn progress_within_a_step_is_counted_by_tens() {
    let names: Vec<String> = (0..23).map(|i| format!("/p/{i}.png")).collect();
    let flow = get_media_records_with_db(names);
    let mut counter = flow.counter();
    let mut currents = vec![flow.opening_event().current];
    for _ in 0..flow.total() {
        if let Some(n) = counter.advance() {
            let event = flow.progress_event(n, Some("x.png".to_string()));
            assert_eq!(event.total, 23);
            assert_eq!(event.step, "checking_database");
            assert_eq!(event.current_file.as_deref(), Some("x.png"));
            currents.push(event.current);
        }
    }
    assert_eq!(currents, vec![0, 10, 20, 23]);
}
