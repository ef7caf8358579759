//! Verified core of a photo-library importer: candidate selection, catalog
//! dedup, thumbnail and metadata planning, ordered reassembly of parallel
//! results, throttled progress reporting, and the final ordering of records.

pub mod catalog;
pub mod clock;
pub mod coordinator;
pub mod deletion;
pub mod exif_data;
pub mod formats;
pub mod ids;
pub mod import;
pub mod json;
pub mod media;
pub mod metadata;
pub mod ordering;
pub mod paths;
pub mod pixels;
pub mod progress;
pub mod rows;
pub mod thumbnail;
mod vectors;
