//! Which files the importer takes, and the MIME type it records for each,
//! both decided by the file extension without regard to ASCII case.

use vstd::prelude::*;
use crate::paths::{extension_text, path_extension};

verus! {

/// `c` with an ASCII capital replaced by its small letter.
pub open spec fn lower_char(c: char) -> char {
    if 'A' <= c && c <= 'Z' {
        ((c as u8) + 32) as char
    } else {
        c
    }
}

/// `s` with every ASCII capital replaced by its small letter.
pub open spec fn ascii_lower(s: Seq<char>) -> Seq<char> {
    s.map_values(|c: char| lower_char(c))
}

fn to_lower_char(c: char) -> (r: char)
    ensures
        r == lower_char(c),
{
    if 'A' <= c && c <= 'Z' {
        ((c as u8) + 32) as char
    } else {
        c
    }
}

/// Whether `text`, with its ASCII capitals made small, is exactly `word`.
fn is_word(text: &str, word: &str) -> (b: bool)
    ensures
        b == (ascii_lower(text@) == word@),
{
    let n = text.unicode_len();
    if word.unicode_len() != n {
        return false;
    }
    let mut i: usize = 0;
    while i < n
        invariant
            i <= n,
            n == text@.len(),
            n == word@.len(),
            forall|j: int| 0 <= j < i ==> lower_char(text@[j]) == word@[j],
        decreases n - i,
    {
        if to_lower_char(text.get_char(i)) != word.get_char(i) {
            assert(ascii_lower(text@)[i as int] != word@[i as int]);
            return false;
        }
        i += 1;
    }
    assert(ascii_lower(text@) =~= word@);
    true
}

/// The extensions of the image formats that the importer takes.
pub open spec fn supported_extensions() -> Seq<Seq<char>> {
    seq!["png"@, "jpg"@, "jpeg"@, "gif"@, "bmp"@, "tiff"@, "webp"@]
}

/// An extension names a supported image format when, ASCII case aside, it is
/// one of `supported_extensions`.
pub open spec fn is_supported_extension(ext: Seq<char>) -> bool {
    supported_extensions().contains(ascii_lower(ext))
}

/// Whether `ext` names a supported image format.
pub fn supported_extension(ext: &str) -> (b: bool)
    ensures
        b == is_supported_extension(ext@),
{
    let b = is_word(ext, "png") || is_word(ext, "jpg") || is_word(ext, "jpeg") || is_word(
        ext,
        "gif",
    ) || is_word(ext, "bmp") || is_word(ext, "tiff") || is_word(ext, "webp");
    proof {
        let all = supported_extensions();
        let low = ascii_lower(ext@);
        if b {
            assert(all[0] == "png"@ && all[1] == "jpg"@ && all[2] == "jpeg"@ && all[3] == "gif"@
                && all[4] == "bmp"@ && all[5] == "tiff"@ && all[6] == "webp"@);
            assert(exists|i: int| 0 <= i < all.len() && all[i] == low);
        }
    }
    b
}

/// Whether the file at `path` is a supported image: its extension, ASCII
/// case aside, is one of png, jpg, jpeg, gif, bmp, tiff, webp. A path
/// without an extension is not.
pub fn _is_supported_image(path: &str) -> (b: bool)
    ensures
        b == is_supported_path(path@),
{
    match path_extension(path) {
        Some(ext) => supported_extension(ext.as_str()),
        None => false,
    }
}

/// The MIME type that goes with an extension: the one of its image format,
/// ASCII case aside, or none where the extension is of no format known here.
pub open spec fn mime_of_extension(ext: Seq<char>) -> Option<Seq<char>> {
    let low = ascii_lower(ext);
    if low == "png"@ {
        Some("image/png"@)
    } else if low == "jpg"@ || low == "jpeg"@ {
        Some("image/jpeg"@)
    } else if low == "gif"@ {
        Some("image/gif"@)
    } else if low == "bmp"@ {
        Some("image/bmp"@)
    } else if low == "tiff"@ || low == "tif"@ {
        Some("image/tiff"@)
    } else if low == "webp"@ {
        Some("image/webp"@)
    } else {
        None
    }
}

/// The MIME type of a file with extension `ext`, if the table has one.
pub fn mime_type_of_extension(ext: &str) -> (r: Option<String>)
    ensures
        r.is_some() == mime_of_extension(ext@).is_some(),
        r matches Some(mime) ==> mime_of_extension(ext@) == Some(mime@),
{
    if is_word(ext, "png") {
        Some("image/png".to_owned())
    } else if is_word(ext, "jpg") || is_word(ext, "jpeg") {
        Some("image/jpeg".to_owned())
    } else if is_word(ext, "gif") {
        Some("image/gif".to_owned())
    } else if is_word(ext, "bmp") {
        Some("image/bmp".to_owned())
    } else if is_word(ext, "tiff") || is_word(ext, "tif") {
        Some("image/tiff".to_owned())
    } else if is_word(ext, "webp") {
        Some("image/webp".to_owned())
    } else {
        None
    }
}

/// The MIME type of the file at `path`, looked up by its extension; absent
/// where the path has no extension or the table does not hold it.
pub fn get_mime_type_from_extension(path: &str) -> (r: Option<String>)
    ensures
        r.is_some() == mime_of_path(path@).is_some(),
        r matches Some(mime) ==> mime_of_path(path@) == Some(mime@),
{
    match path_extension(path) {
        Some(ext) => mime_type_of_extension(ext.as_str()),
        None => None,
    }
}

/// The MIME type recorded for the file at `path`.
pub open spec fn mime_of_path(path: Seq<char>) -> Option<Seq<char>> {
    match extension_text(path) {
        Some(ext) => mime_of_extension(ext),
        None => None,
    }
}

/// Whether the importer takes the file at `path`.
pub open spec fn is_supported_path(path: Seq<char>) -> bool {
    match extension_text(path) {
        Some(ext) => is_supported_extension(ext),
        None => false,
    }
}

} // verus!
