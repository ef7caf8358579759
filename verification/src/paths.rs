//! The parts of a path, as `std::path::Path` takes it apart.

use vstd::prelude::*;

verus! {

/// The final component of a path, as `std::path::Path::file_name` gives it
/// under the path syntax of the platform; `None` where the path has none
/// (it is empty, a root, or ends in `..`).
pub uninterp spec fn final_component(path: Seq<char>) -> Option<Seq<char>>;

/// The index of the last `.` in `name`, or -1 where it has none.
pub open spec fn last_dot(name: Seq<char>) -> int
    decreases name.len(),
{
    if name.len() == 0 {
        -1
    } else if name.last() == '.' {
        name.len() - 1
    } else {
        last_dot(name.drop_last())
    }
}

/// The extension of a file name: what follows its last `.`, unless the name
/// has no `.` or its only `.` is its first character.
pub open spec fn extension_of_name(name: Seq<char>) -> Option<Seq<char>> {
    let dot = last_dot(name);
    if dot <= 0 {
        None
    } else {
        Some(name.subrange(dot + 1, name.len() as int))
    }
}

/// The stem of a file name: what precedes its last `.`, or the whole name
/// where it has no `.` or its only `.` is its first character.
pub open spec fn stem_of_name(name: Seq<char>) -> Seq<char> {
    let dot = last_dot(name);
    if dot <= 0 {
        name
    } else {
        name.subrange(0, dot)
    }
}

/// The extension of the file that `path` names, if it has one.
pub open spec fn extension_text(path: Seq<char>) -> Option<Seq<char>> {
    match final_component(path) {
        Some(name) => extension_of_name(name),
        None => None,
    }
}

/// The stem of the file that `path` names, if it names one.
pub open spec fn stem_text(path: Seq<char>) -> Option<Seq<char>> {
    match final_component(path) {
        Some(name) => Some(stem_of_name(name)),
        None => None,
    }
}

/// Calls `std::path::Path::file_name`. Trusted: the result is the path's
/// final component, which `final_component` names.
#[verifier::external_body]
pub(crate) fn path_file_name(path: &str) -> (r: Option<String>)
    ensures
        r.is_some() == final_component(path@).is_some(),
        r matches Some(name) ==> final_component(path@) == Some(name@),
{
    std::path::Path::new(path).file_name().and_then(|name| name.to_str()).map(|name| name.to_string())
}

/// Calls `std::path::Path::extension`. Trusted: as std documents it, the
/// result is absent where the path has no file name, the name has no `.`,
/// or its only `.` comes first; else it is what follows the last `.`.
#[verifier::external_body]
pub(crate) fn path_extension(path: &str) -> (r: Option<String>)
    ensures
        r.is_some() == extension_text(path@).is_some(),
        r matches Some(ext) ==> extension_text(path@) == Some(ext@),
{
    std::path::Path::new(path).extension().and_then(|ext| ext.to_str()).map(|ext| ext.to_string())
}

/// Calls `std::path::Path::file_stem`. Trusted: as std documents it, the
/// result is absent where the path has no file name; it is the whole name
/// where that has no `.` or its only `.` comes first; else it is what
/// precedes the last `.`.
#[verifier::external_body]
pub(crate) fn path_file_stem(path: &str) -> (r: Option<String>)
    ensures
        r.is_some() == stem_text(path@).is_some(),
        r matches Some(stem) ==> stem_text(path@) == Some(stem@),
{
    std::path::Path::new(path).file_stem().and_then(|stem| stem.to_str()).map(|stem| stem.to_string())
}

/// The path of the entry `name` of the directory `dir`, as
/// `std::path::Path::join` makes it under the path syntax of the platform.
pub uninterp spec fn joined_path(dir: Seq<char>, name: Seq<char>) -> Seq<char>;

/// Calls `std::path::Path::join`. Trusted: the result depends on the two
/// texts alone.
#[verifier::external_body]
pub(crate) fn join_path(dir: &str, name: &str) -> (r: String)
    ensures
        r@ == joined_path(dir@, name@),
{
    std::path::Path::new(dir).join(name).to_string_lossy().to_string()
}

} // verus!
