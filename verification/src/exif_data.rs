//! EXIF fields of an image, by way of `kamadak-exif`.

use vstd::prelude::*;

verus! {

/// The number of the EXIF tag that holds when the picture was taken.
pub const DATE_TIME_ORIGINAL: u16 = 0x9003;

/// The number of the image file directory that describes the picture
/// itself.
pub const PRIMARY_IFD: u16 = 0;

/// The value of a field of the Exif directory of an image, as
/// `kamadak-exif` displays it: the field with tag number `tag` in directory
/// `ifd` of the EXIF data that `content` holds. `None` where `content`
/// holds no EXIF data that the crate can read, or no such field.
pub uninterp spec fn exif_field_text(content: Seq<u8>, tag: u16, ifd: u16) -> Option<Seq<char>>;

/// Reads the EXIF data of an image held in memory with
/// `exif::Reader::read_from_container`, looks the field up with
/// `exif::Exif::get_field` and writes its value with
/// `exif::Field::display_value`. Trusted: the outcome depends on the
/// arguments alone.
#[verifier::external_body]
pub(crate) fn read_exif_field(content: &[u8], tag: u16, ifd: u16) -> (r: Option<String>)
    ensures
        r.is_some() == exif_field_text(content@, tag, ifd).is_some(),
        r matches Some(text) ==> exif_field_text(content@, tag, ifd) == Some(text@),
{
    let data = exif::Reader::new().read_from_container(&mut std::io::Cursor::new(content)).ok()?;
    let field = data.get_field(exif::Tag(exif::Context::Exif, tag), exif::In(ifd))?;
    Some(field.display_value().to_string())
}

} // verus!
