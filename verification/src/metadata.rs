//! The Metadata Extractor: from what the host read of a file to its
//! record. Nothing but a missing file or file name keeps a record from
//! being made; what cannot be found out is left absent.

use vstd::prelude::*;
use crate::clock::{has_date, instant, instant_of_seconds, now, parse_utc, utc_of_text};
use crate::exif_data::{DATE_TIME_ORIGINAL, PRIMARY_IFD, exif_field_text, read_exif_field};
use crate::formats::{get_mime_type_from_extension, mime_of_path};
use crate::ids::fresh_id;
use crate::media::{MediaKind, MediaRecord, Timestamp};
use crate::paths::{final_component, path_file_name};
use crate::pixels::{header_size, probe_dimensions};

verus! {

/// What the host read of one regular file.
#[derive(Debug, Clone, PartialEq, Eq)]
pub struct FileSnapshot {
    /// The file's size in bytes.
    pub size: u64,
    /// When the file was last modified, in seconds since the epoch; absent
    /// where the file system does not tell or tells a time before the
    /// epoch.
    pub modified_secs: Option<u64>,
    /// The file's bytes.
    pub content: Vec<u8>,
}

/// The capture date that the EXIF data of an image states: its
/// DateTimeOriginal field, read as a date with a time zone.
pub open spec fn exif_capture_date(content: Seq<u8>) -> Option<Timestamp> {
    match exif_field_text(content, DATE_TIME_ORIGINAL, PRIMARY_IFD) {
        Some(text) => instant(utc_of_text(text)),
        None => None,
    }
}

/// The time of modification as an instant, where it has a date.
pub open spec fn modified_date(modified_secs: Option<u64>) -> Option<Timestamp> {
    match modified_secs {
        Some(secs) => if secs <= i64::MAX && has_date(secs as i64) {
            Some(Timestamp { secs: secs as i64, nanos: 0 })
        } else {
            None
        },
        None => None,
    }
}

/// When a picture was taken: the date of its EXIF data, else the time at
/// which its file was last modified, else nothing.
pub open spec fn capture_date(file: FileSnapshot) -> Option<Timestamp> {
    match exif_capture_date(file.content@) {
        Some(date) => Some(date),
        None => modified_date(file.modified_secs),
    }
}

/// The characters of a text that may be absent.
pub open spec fn text_of(text: Option<String>) -> Option<Seq<char>> {
    match text {
        Some(s) => Some(s@),
        None => None,
    }
}

/// The identifier is marked as a random one: version 4 of the RFC 4122
/// variant.
pub open spec fn is_random_id(id: u128) -> bool {
    id & 0x0000_0000_0000_f000_c000_0000_0000_0000u128
        == 0x0000_0000_0000_4000_8000_0000_0000_0000u128
}

/// `record` is the record of the image at `path` with the content `file`,
/// made at the instant `now` under the identifier `id`.
pub open spec fn is_record_of(
    record: MediaRecord,
    path: Seq<char>,
    file: FileSnapshot,
    thumbnail_path: Option<String>,
    id: u128,
    now: Timestamp,
) -> bool {
    &&& record.id == id
    &&& record.path@ == path
    &&& final_component(path) == Some(record.name@)
    &&& record.kind == MediaKind::Image
    &&& text_of(record.mime_type) == mime_of_path(path)
    &&& record.size == Some(file.size)
    &&& match header_size(file.content@, path) {
        Some((width, height)) => record.width == Some(width) && record.height == Some(height),
        None => record.width.is_none() && record.height.is_none(),
    }
    &&& record.duration_bits.is_none()
    &&& record.thumbnail_path == thumbnail_path
    &&& record.taken_date == capture_date(file)
    &&& record.created_at == now
    &&& record.updated_at == now
    &&& record.tags.is_none()
    &&& record.album_ids.is_none()
    &&& record.face_count.is_none()
}

/// The capture date as the EXIF data of an image states it: the value of
/// its DateTimeOriginal field, as text.
pub fn exif_date_text(content: &[u8]) -> (text: Option<String>)
    ensures
        text_of(text) == exif_field_text(content@, DATE_TIME_ORIGINAL, PRIMARY_IFD),
{
    read_exif_field(content, DATE_TIME_ORIGINAL, PRIMARY_IFD)
}

/// Reads a capture date from text: a date and time with a time zone, in a
/// relaxed form of RFC 3339.
pub fn parse_capture_date(text: &str) -> (date: Option<Timestamp>)
    ensures
        date == instant(utc_of_text(text@)),
{
    parse_utc(text)
}

/// The capture date that the EXIF data of an image states, if it states
/// one that can be read.
pub fn extract_exif_date_fast(content: &[u8]) -> (date: Option<Timestamp>)
    ensures
        date == exif_capture_date(content@),
{
    match exif_date_text(content) {
        Some(text) => parse_capture_date(text.as_str()),
        None => None,
    }
}

/// The time of modification as an instant.
fn date_of_modification(modified_secs: Option<u64>) -> (date: Option<Timestamp>)
    ensures
        date == modified_date(modified_secs),
{
    match modified_secs {
        Some(secs) => if secs <= i64::MAX as u64 {
            instant_of_seconds(secs as i64)
        } else {
            None
        },
        None => None,
    }
}

/// Makes the record of the image at `path` from what was read of it, under
/// the identifier and the instant given. No record is made for a path
/// without a file name.
pub fn build_media_record(
    path: &str,
    file: &FileSnapshot,
    thumbnail_path: Option<String>,
    id: u128,
    now: Timestamp,
) -> (record: Option<MediaRecord>)
    ensures
        record.is_some() == final_component(path@).is_some(),
        record matches Some(r) ==> is_record_of(r, path@, *file, thumbnail_path, id, now),
{
    let name = match path_file_name(path) {
        Some(name) => name,
        None => {
            return None;
        },
    };
    let (width, height) = match probe_dimensions(file.content.as_slice(), path) {
        Some((width, height)) => (Some(width), Some(height)),
        None => (None, None),
    };
    let taken_date = match extract_exif_date_fast(file.content.as_slice()) {
        Some(date) => Some(date),
        None => date_of_modification(file.modified_secs),
    };
    let mime_type = get_mime_type_from_extension(path);
    Some(
        MediaRecord {
            id,
            path: path.to_owned(),
            name,
            kind: MediaKind::Image,
            mime_type,
            size: Some(file.size),
            width,
            height,
            duration_bits: None,
            thumbnail_path,
            taken_date,
            created_at: now,
            updated_at: now,
            tags: None,
            album_ids: None,
            face_count: None,
        },
    )
}

/// Makes the record of the image at `path`. `file` is what the host read of
/// it, absent where the path names no regular file that can be read. The
/// record gets a fresh identifier and the current time as the time of its
/// making.
pub fn create_media_record_fast(
    path: &str,
    file: Option<&FileSnapshot>,
    thumbnail_path: Option<String>,
) -> (record: Option<MediaRecord>)
    ensures
        record.is_some() == (file.is_some() && final_component(path@).is_some()),
        record matches Some(r) ==> is_random_id(r.id) && is_record_of(
            r,
            path@,
            *file.unwrap(),
            thumbnail_path,
            r.id,
            r.created_at,
        ),
{
    match file {
        Some(file) => build_media_record(path, file, thumbnail_path, fresh_id(), now()),
        None => None,
    }
}

/// The record of the single image at `path`, or the reason why there is
/// none.
pub fn get_media_record(path: &str, file: Option<&FileSnapshot>, thumbnail_path: Option<String>) -> (r:
    Result<MediaRecord, String>)
    ensures
        r.is_ok() == (file.is_some() && final_component(path@).is_some()),
        r matches Ok(record) ==> is_random_id(record.id) && is_record_of(
            record,
            path@,
            *file.unwrap(),
            thumbnail_path,
            record.id,
            record.created_at,
        ),
        r matches Err(reason) ==> reason@ == "无法处理文件: "@ + path@,
{
    match create_media_record_fast(path, file, thumbnail_path) {
        Some(record) => Ok(record),
        None => {
            let mut reason = "无法处理文件: ".to_owned();
            reason.append(path);
            Err(reason)
        },
    }
}

} // verus!
