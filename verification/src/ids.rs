//! Record identifiers: 128-bit values written as UUIDs.

use vstd::prelude::*;

verus! {

#[verifier::external_type_specification]
#[verifier::external_body]
pub struct ExUuidError(uuid::Error);

/// The hexadecimal digit, in lower case, of a value below 16.
pub open spec fn hex_digit(v: int) -> char {
    if v < 10 {
        (('0' as u8) + v) as char
    } else {
        (('a' as u8) + v - 10) as char
    }
}

/// The `k`-th of the 32 hexadecimal digits of `id`, the most significant
/// first.
pub open spec fn id_nibble(id: u128, k: int) -> int {
    ((id as int) / pow16(31 - k)) % 16
}

/// 16 to the power `e`.
pub open spec fn pow16(e: int) -> int
    decreases e,
{
    if e <= 0 {
        1
    } else {
        16 * pow16(e - 1)
    }
}

/// An identifier as it is written: its 32 hexadecimal digits in lower case,
/// in groups of 8, 4, 4, 4 and 12 with a hyphen between them.
pub open spec fn id_text(id: u128) -> Seq<char> {
    Seq::new(
        36,
        |i: int|
            if i == 8 || i == 13 || i == 18 || i == 23 {
                '-'
            } else if i < 8 {
                hex_digit(id_nibble(id, i))
            } else if i < 13 {
                hex_digit(id_nibble(id, i - 1))
            } else if i < 18 {
                hex_digit(id_nibble(id, i - 2))
            } else if i < 23 {
                hex_digit(id_nibble(id, i - 3))
            } else {
                hex_digit(id_nibble(id, i - 4))
            },
    )
}

/// The identifier that a text denotes, as `uuid::Uuid::parse_str` reads it;
/// `None` where it reads none.
pub uninterp spec fn id_of_text(text: Seq<char>) -> Option<u128>;

/// Calls `uuid::Uuid::new_v4`. Trusted: the result is random but for the
/// bits that mark it as a version 4 identifier of the RFC 4122 variant.
#[verifier::external_body]
pub(crate) fn fresh_id() -> (id: u128)
    ensures
        id & 0x0000_0000_0000_f000_c000_0000_0000_0000u128
            == 0x0000_0000_0000_4000_8000_0000_0000_0000u128,
{
    uuid::Uuid::new_v4().as_u128()
}

/// Writes an identifier with the `Display` of `uuid::Uuid`. Trusted: the
/// result is the hyphenated form in lower case.
#[verifier::external_body]
pub(crate) fn id_to_text(id: u128) -> (text: String)
    ensures
        text@ == id_text(id),
{
    uuid::Uuid::from_u128(id).to_string()
}

/// Calls `uuid::Uuid::parse_str`. Trusted: the outcome depends on the text
/// alone.
#[verifier::external_body]
pub(crate) fn parse_id(text: &str) -> (r: Result<u128, uuid::Error>)
    ensures
        r.is_ok() == id_of_text(text@).is_some(),
        r matches Ok(id) ==> id_of_text(text@) == Some(id),
{
    uuid::Uuid::parse_str(text).map(|id| id.as_u128())
}

} // verus!
