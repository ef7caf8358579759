//! Records as the catalog's table holds them: one row of texts and numbers
//! for each record, and the way from one to the other.

use vstd::prelude::*;
use crate::clock::{format_rfc3339, instant, parse_rfc3339, rfc3339_of, utc_of_rfc3339};
use crate::ids::{id_of_text, id_text, id_to_text, parse_id};
use crate::json::{
    id_list_of_json, json_of_id_list, json_of_text_list, parse_id_list, parse_text_list,
    text_list_of_json, texts_of, write_id_list, write_text_list,
};
use crate::media::{MediaKind, MediaRecord, Timestamp};
use crate::metadata::text_of;

verus! {

/// One row of the catalog's table, column by column.
#[derive(Debug, Clone, PartialEq, Eq)]
pub struct StoredRow {
    pub id: String,
    pub path: String,
    pub name: String,
    pub kind: String,
    pub mime_type: Option<String>,
    pub size: Option<i64>,
    pub width: Option<i64>,
    pub height: Option<i64>,
    /// The bits of the floating-point number in the column.
    pub duration_bits: Option<u64>,
    pub thumbnail_path: Option<String>,
    pub taken_date: Option<String>,
    pub created_at: String,
    pub updated_at: String,
    pub tags: Option<String>,
    pub album_ids: Option<String>,
    pub face_count: Option<i64>,
}

/// Why a row or a record could not be taken over.
#[derive(Debug, Clone, Copy, PartialEq, Eq, Structural)]
pub enum RowError {
    /// The row's identifier is no UUID.
    InvalidId,
    /// The row's time of making is no RFC 3339 date.
    InvalidCreatedAt,
    /// The row's time of change is no RFC 3339 date.
    InvalidUpdatedAt,
    /// An instant of the record lies outside the calendar that dates are
    /// written in.
    DateOutOfRange,
}

impl RowError {
    /// The column at fault, counted from 0 in the order of `StoredRow`.
    pub fn column(&self) -> (c: usize)
        ensures
            c == match *self {
                RowError::InvalidId => 0usize,
                RowError::InvalidCreatedAt => 11usize,
                RowError::InvalidUpdatedAt => 12usize,
                RowError::DateOutOfRange => 10usize,
            },
    {
        match self {
            RowError::InvalidId => 0,
            RowError::InvalidCreatedAt => 11,
            RowError::InvalidUpdatedAt => 12,
            RowError::DateOutOfRange => 10,
        }
    }
}

/// The text that the table holds for a kind. The spelling of the second is
/// the one that existing catalogs hold.
pub open spec fn kind_text(kind: MediaKind) -> Seq<char> {
    match kind {
        MediaKind::Image => "Image"@,
        MediaKind::Video => "Vedio"@,
        MediaKind::Other => "Other"@,
    }
}

/// The kind that a text of the table denotes; every unknown text denotes
/// `Other`.
pub open spec fn kind_of_text(text: Seq<char>) -> MediaKind {
    if text == "Image"@ {
        MediaKind::Image
    } else if text == "Vedio"@ {
        MediaKind::Video
    } else {
        MediaKind::Other
    }
}

/// A text column that may hold the word `null` in place of nothing.
pub open spec fn unless_null(column: Option<String>) -> Option<Seq<char>> {
    match column {
        Some(text) => if text@ == "null"@ {
            None
        } else {
            Some(text@)
        },
        None => None,
    }
}

/// The date that a column holds; a text that is no date counts as none.
pub open spec fn date_of_column(column: Option<String>) -> Option<Timestamp> {
    match unless_null(column) {
        Some(text) => instant(utc_of_rfc3339(text)),
        None => None,
    }
}

/// The texts that a column holds; a text that is no list counts as none.
pub open spec fn tags_of_column(column: Option<String>) -> Option<Seq<Seq<char>>> {
    match unless_null(column) {
        Some(text) => text_list_of_json(text),
        None => None,
    }
}

/// The identifiers that a column holds; a text that is no list counts as
/// none.
pub open spec fn albums_of_column(column: Option<String>) -> Option<Seq<u128>> {
    match unless_null(column) {
        Some(text) => id_list_of_json(text),
        None => None,
    }
}

/// The first fault of a row, if it has one: its identifier, then its time
/// of making, then its time of change.
pub open spec fn row_fault(row: StoredRow) -> Option<RowError> {
    if id_of_text(row.id@).is_none() {
        Some(RowError::InvalidId)
    } else if utc_of_rfc3339(row.created_at@).is_none() {
        Some(RowError::InvalidCreatedAt)
    } else if utc_of_rfc3339(row.updated_at@).is_none() {
        Some(RowError::InvalidUpdatedAt)
    } else {
        None
    }
}

/// `record` is what `row` holds. Numbers are taken over by their low bits.
pub open spec fn is_record_of_row(record: MediaRecord, row: StoredRow) -> bool {
    &&& Some(record.id) == id_of_text(row.id@)
    &&& record.path == row.path
    &&& record.name == row.name
    &&& record.kind == kind_of_text(row.kind@)
    &&& record.mime_type == row.mime_type
    &&& record.size == match row.size {
        Some(n) => Some(n as u64),
        None => None,
    }
    &&& record.width == match row.width {
        Some(n) => Some(n as u32),
        None => None,
    }
    &&& record.height == match row.height {
        Some(n) => Some(n as u32),
        None => None,
    }
    &&& record.duration_bits == row.duration_bits
    &&& record.thumbnail_path == row.thumbnail_path
    &&& record.taken_date == date_of_column(row.taken_date)
    &&& Some(record.created_at) == instant(utc_of_rfc3339(row.created_at@))
    &&& Some(record.updated_at) == instant(utc_of_rfc3339(row.updated_at@))
    &&& match record.tags {
        Some(tags) => tags_of_column(row.tags) == Some(texts_of(tags@)),
        None => tags_of_column(row.tags).is_none(),
    }
    &&& match record.album_ids {
        Some(ids) => albums_of_column(row.album_ids) == Some(ids@),
        None => albums_of_column(row.album_ids).is_none(),
    }
    &&& record.face_count == match row.face_count {
        Some(n) => Some(n as u32),
        None => None,
    }
}

fn is_null_word(text: &String) -> (b: bool)
    ensures
        b == (text@ == "null"@),
{
    let word = "null".to_owned();
    *text == word
}

fn kind_from_text(text: &String) -> (kind: MediaKind)
    ensures
        kind == kind_of_text(text@),
{
    let image = "Image".to_owned();
    let video = "Vedio".to_owned();
    if *text == image {
        MediaKind::Image
    } else if *text == video {
        MediaKind::Video
    } else {
        MediaKind::Other
    }
}

fn low_u32(n: Option<i64>) -> (r: Option<u32>)
    ensures
        r == match n {
            Some(n) => Some(n as u32),
            None => None::<u32>,
        },
{
    match n {
        Some(n) => Some(#[verifier::truncate] (n as u32)),
        None => None,
    }
}

/// Takes a row of the catalog's table over into a record. A row fails for
/// an identifier or a time of making or change that cannot be read; any
/// other column that cannot be read is taken as empty.
pub fn record_from_row(row: StoredRow) -> (r: Result<MediaRecord, RowError>)
    ensures
        r.is_err() == row_fault(row).is_some(),
        r matches Err(e) ==> row_fault(row) == Some(e),
        r matches Ok(record) ==> is_record_of_row(record, row),
{
    let id = match parse_id(row.id.as_str()) {
        Ok(id) => id,
        Err(_) => {
            return Err(RowError::InvalidId);
        },
    };
    let kind = kind_from_text(&row.kind);
    let size = match row.size {
        Some(n) => Some(#[verifier::truncate] (n as u64)),
        None => None,
    };
    let width = low_u32(row.width);
    let height = low_u32(row.height);
    let taken_date = match &row.taken_date {
        Some(text) => if is_null_word(text) {
            None
        } else {
            match parse_rfc3339(text.as_str()) {
                Ok(date) => Some(date),
                Err(_) => None,
            }
        },
        None => None,
    };
    let created_at = match parse_rfc3339(row.created_at.as_str()) {
        Ok(date) => date,
        Err(_) => {
            return Err(RowError::InvalidCreatedAt);
        },
    };
    let updated_at = match parse_rfc3339(row.updated_at.as_str()) {
        Ok(date) => date,
        Err(_) => {
            return Err(RowError::InvalidUpdatedAt);
        },
    };
    let tags = match &row.tags {
        Some(text) => if is_null_word(text) {
            None
        } else {
            parse_text_list(text.as_str())
        },
        None => None,
    };
    let album_ids = match &row.album_ids {
        Some(text) => if is_null_word(text) {
            None
        } else {
            parse_id_list(text.as_str())
        },
        None => None,
    };
    let face_count = low_u32(row.face_count);
    Ok(
        MediaRecord {
            id,
            path: row.path,
            name: row.name,
            kind,
            mime_type: row.mime_type,
            size,
            width,
            height,
            duration_bits: row.duration_bits,
            thumbnail_path: row.thumbnail_path,
            taken_date,
            created_at,
            updated_at,
            tags,
            album_ids,
            face_count,
        },
    )
}

/// The date columns of `record` can be written: each of its instants has a
/// date.
pub open spec fn dates_writable(record: MediaRecord) -> bool {
    &&& rfc3339_of(record.created_at.secs, record.created_at.nanos).is_some()
    &&& rfc3339_of(record.updated_at.secs, record.updated_at.nanos).is_some()
    &&& record.taken_date matches Some(date) ==> rfc3339_of(date.secs, date.nanos).is_some()
}

/// The JSON text of a list that may be absent; a list that cannot be
/// written is stored as the empty list.
pub open spec fn json_or_empty(json: Option<Seq<char>>) -> Seq<char> {
    match json {
        Some(text) => text,
        None => "[]"@,
    }
}

/// `row` is what the table holds for `record`. Numbers are taken over by
/// their low bits.
pub open spec fn is_row_of_record(row: StoredRow, record: MediaRecord) -> bool {
    &&& row.id@ == id_text(record.id)
    &&& row.path == record.path
    &&& row.name == record.name
    &&& row.kind@ == kind_text(record.kind)
    &&& row.mime_type == record.mime_type
    &&& row.size == match record.size {
        Some(n) => Some(n as i64),
        None => None,
    }
    &&& row.width == match record.width {
        Some(n) => Some(n as i64),
        None => None,
    }
    &&& row.height == match record.height {
        Some(n) => Some(n as i64),
        None => None,
    }
    &&& row.duration_bits == record.duration_bits
    &&& row.thumbnail_path == record.thumbnail_path
    &&& text_of(row.taken_date) == match record.taken_date {
        Some(date) => rfc3339_of(date.secs, date.nanos),
        None => None,
    }
    &&& Some(row.created_at@) == rfc3339_of(record.created_at.secs, record.created_at.nanos)
    &&& Some(row.updated_at@) == rfc3339_of(record.updated_at.secs, record.updated_at.nanos)
    &&& text_of(row.tags) == match record.tags {
        Some(tags) => Some(json_or_empty(json_of_text_list(texts_of(tags@)))),
        None => None,
    }
    &&& text_of(row.album_ids) == match record.album_ids {
        Some(ids) => Some(json_or_empty(json_of_id_list(ids@))),
        None => None,
    }
    &&& row.face_count == match record.face_count {
        Some(n) => Some(n as i64),
        None => None,
    }
}

fn kind_to_text(kind: MediaKind) -> (text: String)
    ensures
        text@ == kind_text(kind),
{
    match kind {
        MediaKind::Image => "Image".to_owned(),
        MediaKind::Video => "Vedio".to_owned(),
        MediaKind::Other => "Other".to_owned(),
    }
}

fn wide(n: Option<u32>) -> (r: Option<i64>)
    ensures
        r == match n {
            Some(n) => Some(n as i64),
            None => None::<i64>,
        },
{
    match n {
        Some(n) => Some(n as i64),
        None => None,
    }
}

fn copy_text(text: &Option<String>) -> (r: Option<String>)
    ensures
        r == *text,
{
    match text {
        Some(s) => Some(s.clone()),
        None => None,
    }
}

/// Writes a record as a row of the catalog's table. It fails only for an
/// instant that has no date.
pub fn row_from_record(record: &MediaRecord) -> (r: Result<StoredRow, RowError>)
    ensures
        r.is_ok() == dates_writable(*record),
        r matches Err(e) ==> e == RowError::DateOutOfRange,
        r matches Ok(row) ==> is_row_of_record(row, *record),
{
    let taken_date = match record.taken_date {
        Some(date) => match format_rfc3339(date) {
            Some(text) => Some(text),
            None => {
                return Err(RowError::DateOutOfRange);
            },
        },
        None => None,
    };
    let created_at = match format_rfc3339(record.created_at) {
        Some(text) => text,
        None => {
            return Err(RowError::DateOutOfRange);
        },
    };
    let updated_at = match format_rfc3339(record.updated_at) {
        Some(text) => text,
        None => {
            return Err(RowError::DateOutOfRange);
        },
    };
    let tags = match &record.tags {
        Some(tags) => match write_text_list(tags) {
            Ok(json) => Some(json),
            Err(_) => Some("[]".to_owned()),
        },
        None => None,
    };
    let album_ids = match &record.album_ids {
        Some(ids) => match write_id_list(ids) {
            Ok(json) => Some(json),
            Err(_) => Some("[]".to_owned()),
        },
        None => None,
    };
    let size = match record.size {
        Some(n) => Some(#[verifier::truncate] (n as i64)),
        None => None,
    };
    Ok(
        StoredRow {
            id: id_to_text(record.id),
            path: record.path.clone(),
            name: record.name.clone(),
            kind: kind_to_text(record.kind),
            mime_type: copy_text(&record.mime_type),
            size,
            width: wide(record.width),
            height: wide(record.height),
            duration_bits: record.duration_bits,
            thumbnail_path: copy_text(&record.thumbnail_path),
            taken_date,
            created_at,
            updated_at,
            tags,
            album_ids,
            face_count: wide(record.face_count),
        },
    )
}

} // verus!
