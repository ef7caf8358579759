//! The catalog's unit of truth, `MediaRecord`, and the instants it carries.

use vstd::prelude::*;

verus! {

/// What a catalogued file holds.
#[derive(Debug, Clone, Copy, PartialEq, Eq, Structural)]
pub enum MediaKind {
    Image,
    Video,
    Other,
}

/// An instant on the UTC time line: whole seconds since the Unix epoch and
/// the nanoseconds past that second.
#[derive(Debug, Clone, Copy, PartialEq, Eq, Structural)]
pub struct Timestamp {
    pub secs: i64,
    pub nanos: u32,
}

impl Timestamp {
    /// `self` is strictly earlier than `other`.
    pub open spec fn before(self, other: Timestamp) -> bool {
        self.secs < other.secs || (self.secs == other.secs && self.nanos < other.nanos)
    }

    /// Whether `self` is strictly earlier than `other`.
    pub fn is_before(&self, other: &Timestamp) -> (b: bool)
        ensures
            b == self.before(*other),
    {
        self.secs < other.secs || (self.secs == other.secs && self.nanos < other.nanos)
    }
}

/// One catalogued file. A record is built whole before it is stored; the
/// catalog keys it by `path`.
#[derive(Debug, Clone, PartialEq, Eq)]
pub struct MediaRecord {
    /// Identifier given once, when the record is made.
    pub id: u128,
    /// Absolute path of the file; the key under which the catalog finds it.
    pub path: String,
    /// The file's name.
    pub name: String,
    pub kind: MediaKind,
    pub mime_type: Option<String>,
    /// Size of the file in bytes.
    pub size: Option<u64>,
    pub width: Option<u32>,
    pub height: Option<u32>,
    /// Playing time in seconds, held as the bits of an IEEE 754 double.
    pub duration_bits: Option<u64>,
    pub thumbnail_path: Option<String>,
    /// When the picture was taken, as far as it could be found out.
    pub taken_date: Option<Timestamp>,
    pub created_at: Timestamp,
    pub updated_at: Timestamp,
    pub tags: Option<Vec<String>>,
    pub album_ids: Option<Vec<u128>>,
    pub face_count: Option<u32>,
}

} // verus!
