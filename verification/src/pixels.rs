//! Image data: the size that a header states and the making of a
//! thumbnail, by way of `image`.

use vstd::prelude::*;

verus! {

/// The width and height that the header of an image states, read without
/// decoding the picture. The format is the one that the extension of
/// `path` names. `None` where the extension names no format or the header
/// cannot be read as one of that format.
pub uninterp spec fn header_size(content: Seq<u8>, path: Seq<char>) -> Option<(u32, u32)>;

/// The JPEG encoding of the picture `content`, scaled to exactly `width`
/// by `height` without regard to its proportions. The format is the one
/// that the first bytes show, else the one that the extension of `path`
/// names. `None` where the picture cannot be decoded or encoded.
pub uninterp spec fn scaled_jpeg(content: Seq<u8>, path: Seq<char>, width: u32, height: u32) -> Option<Seq<u8>>;

/// Reads the size with `image::ImageReader::into_dimensions`, on a reader
/// made by `ImageReader::with_format` for the format that
/// `image::ImageFormat::from_path` finds. Trusted: the outcome depends on
/// the arguments alone.
#[verifier::external_body]
pub(crate) fn probe_dimensions(content: &[u8], path: &str) -> (r: Option<(u32, u32)>)
    ensures
        r == header_size(content@, path@),
{
    let format = image::ImageFormat::from_path(path).ok()?;
    image::ImageReader::with_format(std::io::Cursor::new(content), format).into_dimensions().ok()
}

/// Decodes with `image::ImageReader::decode` after
/// `ImageReader::with_guessed_format`, scales with
/// `image::DynamicImage::thumbnail_exact` and encodes with
/// `DynamicImage::write_to` as JPEG. Trusted: the outcome depends on the
/// arguments alone.
#[verifier::external_body]
pub(crate) fn render_scaled_jpeg(content: &[u8], path: &str, width: u32, height: u32) -> (r: Option<
    Vec<u8>,
>)
    ensures
        r.is_some() == scaled_jpeg(content@, path@, width, height).is_some(),
        r matches Some(bytes) ==> scaled_jpeg(content@, path@, width, height) == Some(bytes@),
{
    let mut reader = image::ImageReader::new(std::io::Cursor::new(content));
    if let Ok(format) = image::ImageFormat::from_path(path) {
        reader.set_format(format);
    }
    let picture = reader.with_guessed_format().ok()?.decode().ok()?;
    let mut bytes = Vec::new();
    let small = picture.thumbnail_exact(width, height);
    small.write_to(&mut std::io::Cursor::new(&mut bytes), image::ImageFormat::Jpeg).ok()?;
    Some(bytes)
}

} // verus!
