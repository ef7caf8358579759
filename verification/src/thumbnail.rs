//! The Thumbnail Generator: where the thumbnail of an image lives, and the
//! course of making it. A thumbnail is named after the stem of its source
//! alone, so sources that share a stem share a thumbnail: the one that is
//! made first stays, and the others reuse it.

use vstd::prelude::*;
use crate::paths::{join_path, joined_path, path_file_stem, stem_text};
use crate::pixels::{render_scaled_jpeg, scaled_jpeg};

verus! {

/// Width and height of every thumbnail, in pixels.
pub const THUMBNAIL_EDGE: u32 = 200;

/// The name of the thumbnail of the image at `path`: its stem and `.jpg`.
/// A path without a file name has none.
pub open spec fn thumbnail_name(path: Seq<char>) -> Option<Seq<char>> {
    match stem_text(path) {
        Some(stem) => Some(stem + ".jpg"@),
        None => None,
    }
}

/// Where in `dir` the thumbnail of the image at `path` lives.
pub open spec fn thumbnail_target(dir: Seq<char>, path: Seq<char>) -> Option<Seq<char>> {
    match thumbnail_name(path) {
        Some(name) => Some(joined_path(dir, name)),
        None => None,
    }
}

/// The name of the thumbnail of the image at `path`.
pub fn thumbnail_file_name(path: &str) -> (name: Option<String>)
    ensures
        name.is_some() == thumbnail_name(path@).is_some(),
        name matches Some(n) ==> thumbnail_name(path@) == Some(n@),
{
    match path_file_stem(path) {
        Some(stem) => {
            let mut name = stem;
            name.append(".jpg");
            Some(name)
        },
        None => None,
    }
}

/// The making of one thumbnail, step by step. The host does what the
/// state asks and reports the outcome.
#[derive(Debug, Clone, PartialEq, Eq)]
pub enum ThumbnailJob {
    /// The host is to tell whether a file exists at `target`.
    Probe { target: String },
    /// The host is to read the source image.
    Load { target: String },
    /// The host is to write `jpeg` to a new file at `target`.
    Store { target: String, jpeg: Vec<u8> },
    /// The job is over: the thumbnail's path, or none where none could be
    /// made.
    Done(Option<String>),
}

/// What the host reports to a job.
#[derive(Debug, Clone, PartialEq, Eq)]
pub enum ThumbnailEvent {
    /// Whether a file exists at the target.
    Exists(bool),
    /// The bytes of the source image; none where it could not be read.
    Loaded(Option<Vec<u8>>),
    /// Whether the thumbnail was written.
    Stored(bool),
}

/// The state in which the job for the image at `path` starts.
pub open spec fn job_start(dir: Seq<char>, path: Seq<char>, job: ThumbnailJob) -> bool {
    match thumbnail_target(dir, path) {
        Some(target) => job matches ThumbnailJob::Probe { target: t } && t@ == target,
        None => job == ThumbnailJob::Done(None),
    }
}

/// `next` is the state that follows `job` when the host reports `event`.
/// An existing thumbnail is reused as it is. A source that cannot be read
/// or decoded, or a thumbnail that cannot be written, ends the job without
/// a thumbnail. A report that does not answer the state changes nothing.
pub open spec fn job_step(
    job: ThumbnailJob,
    path: Seq<char>,
    event: ThumbnailEvent,
    next: ThumbnailJob,
) -> bool {
    match (job, event) {
        (ThumbnailJob::Probe { target }, ThumbnailEvent::Exists(true)) => next
            == ThumbnailJob::Done(Some(target)),
        (ThumbnailJob::Probe { target }, ThumbnailEvent::Exists(false)) => next
            == (ThumbnailJob::Load { target }),
        (ThumbnailJob::Load { target }, ThumbnailEvent::Loaded(Some(content))) => match scaled_jpeg(
            content@,
            path,
            THUMBNAIL_EDGE,
            THUMBNAIL_EDGE,
        ) {
            Some(bytes) => next matches ThumbnailJob::Store { target: t, jpeg } && t == target
                && jpeg@ == bytes,
            None => next == ThumbnailJob::Done(None),
        },
        (ThumbnailJob::Load { target }, ThumbnailEvent::Loaded(None)) => next
            == ThumbnailJob::Done(None),
        (ThumbnailJob::Store { target, jpeg }, ThumbnailEvent::Stored(true)) => next
            == ThumbnailJob::Done(Some(target)),
        (ThumbnailJob::Store { target, jpeg }, ThumbnailEvent::Stored(false)) => next
            == ThumbnailJob::Done(None),
        _ => next == job,
    }
}

/// Starts the making of the thumbnail of the image at `path`, which is to
/// live in the directory `dir`.
pub fn generate_thumbnail(dir: &str, path: &str) -> (job: ThumbnailJob)
    ensures
        job_start(dir@, path@, job),
{
    match thumbnail_file_name(path) {
        Some(name) => ThumbnailJob::Probe { target: join_path(dir, name.as_str()) },
        None => ThumbnailJob::Done(None),
    }
}

impl ThumbnailJob {
    /// Takes the host's report and moves on. `path` is the source image.
    pub fn advance(self, path: &str, event: ThumbnailEvent) -> (next: ThumbnailJob)
        ensures
            job_step(self, path@, event, next),
    {
        match (self, event) {
            (ThumbnailJob::Probe { target }, ThumbnailEvent::Exists(exists)) => {
                if exists {
                    ThumbnailJob::Done(Some(target))
                } else {
                    ThumbnailJob::Load { target }
                }
            },
            (ThumbnailJob::Load { target }, ThumbnailEvent::Loaded(content)) => {
                match content {
                    Some(content) => {
                        match render_scaled_jpeg(
                            content.as_slice(),
                            path,
                            THUMBNAIL_EDGE,
                            THUMBNAIL_EDGE,
                        ) {
                            Some(jpeg) => ThumbnailJob::Store { target, jpeg },
                            None => ThumbnailJob::Done(None),
                        }
                    },
                    None => ThumbnailJob::Done(None),
                }
            },
            (ThumbnailJob::Store { target, jpeg }, ThumbnailEvent::Stored(stored)) => {
                if stored {
                    ThumbnailJob::Done(Some(target))
                } else {
                    ThumbnailJob::Done(None)
                }
            },
            (job, _) => job,
        }
    }

    /// The thumbnail's path once the job is over.
    pub fn result(&self) -> (r: Option<&Option<String>>)
        ensures
            r == match *self {
                ThumbnailJob::Done(ref path) => Some(path),
                _ => None,
            },
    {
        match self {
            ThumbnailJob::Done(path) => Some(path),
            _ => None,
        }
    }
}

} // verus!
