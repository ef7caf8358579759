//! Lists as JSON text, by way of `serde_json`.

use vstd::prelude::*;

verus! {

#[verifier::external_type_specification]
#[verifier::external_body]
pub struct ExJsonError(serde_json::Error);

/// The characters of each text of a list.
pub open spec fn texts_of(list: Seq<String>) -> Seq<Seq<char>> {
    list.map_values(|s: String| s@)
}

/// The list of texts that a JSON text denotes, as `serde_json::from_str`
/// reads it; `None` where the text is no JSON array of strings.
pub uninterp spec fn text_list_of_json(json: Seq<char>) -> Option<Seq<Seq<char>>>;

/// The list of identifiers that a JSON text denotes, as
/// `serde_json::from_str` reads it; `None` where the text is no JSON array
/// of UUIDs.
pub uninterp spec fn id_list_of_json(json: Seq<char>) -> Option<Seq<u128>>;

/// A list of texts as `serde_json::to_string` writes it; `None` where it
/// fails.
pub uninterp spec fn json_of_text_list(list: Seq<Seq<char>>) -> Option<Seq<char>>;

/// A list of identifiers as `serde_json::to_string` writes it; `None`
/// where it fails.
pub uninterp spec fn json_of_id_list(list: Seq<u128>) -> Option<Seq<char>>;

/// Calls `serde_json::from_str` for a `Vec<String>`. Trusted: the outcome
/// depends on the text alone.
#[verifier::external_body]
pub(crate) fn parse_text_list(json: &str) -> (r: Option<Vec<String>>)
    ensures
        r.is_some() == text_list_of_json(json@).is_some(),
        r matches Some(list) ==> text_list_of_json(json@) == Some(texts_of(list@)),
{
    serde_json::from_str::<Vec<String>>(json).ok()
}

/// Calls `serde_json::from_str` for a `Vec<uuid::Uuid>`. Trusted: the
/// outcome depends on the text alone.
#[verifier::external_body]
pub(crate) fn parse_id_list(json: &str) -> (r: Option<Vec<u128>>)
    ensures
        r.is_some() == id_list_of_json(json@).is_some(),
        r matches Some(list) ==> id_list_of_json(json@) == Some(list@),
{
    let ids = serde_json::from_str::<Vec<uuid::Uuid>>(json).ok()?;
    Some(ids.into_iter().map(|id| id.as_u128()).collect())
}

/// Calls `serde_json::to_string` on a `Vec<String>`. Trusted: the outcome
/// depends on the list alone.
#[verifier::external_body]
pub(crate) fn write_text_list(list: &Vec<String>) -> (r: Result<String, serde_json::Error>)
    ensures
        r.is_ok() == json_of_text_list(texts_of(list@)).is_some(),
        r matches Ok(json) ==> json_of_text_list(texts_of(list@)) == Some(json@),
{
    serde_json::to_string(list)
}

/// Calls `serde_json::to_string` on a `Vec<uuid::Uuid>`. Trusted: the
/// outcome depends on the list alone.
#[verifier::external_body]
pub(crate) fn write_id_list(list: &Vec<u128>) -> (r: Result<String, serde_json::Error>)
    ensures
        r.is_ok() == json_of_id_list(list@).is_some(),
        r matches Ok(json) ==> json_of_id_list(list@) == Some(json@),
{
    let ids: Vec<uuid::Uuid> = list.iter().map(|id| uuid::Uuid::from_u128(*id)).collect();
    serde_json::to_string(&ids)
}

} // verus!
