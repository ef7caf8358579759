//! Instants as text and the current time, by way of `chrono`.

use vstd::prelude::*;
use crate::media::Timestamp;

verus! {

#[verifier::external_type_specification]
#[verifier::external_body]
pub struct ExParseError(chrono::ParseError);

/// The instant that a text denotes when `chrono` reads it as a
/// `DateTime<Utc>` with `str::parse`, which takes a relaxed form of
/// RFC 3339; `None` where it reads none. The pair is seconds since the
/// epoch and nanoseconds.
pub uninterp spec fn utc_of_text(text: Seq<char>) -> Option<(i64, u32)>;

/// The instant that a text denotes when `chrono` reads it with
/// `DateTime::parse_from_rfc3339`; `None` where it reads none.
pub uninterp spec fn utc_of_rfc3339(text: Seq<char>) -> Option<(i64, u32)>;

/// An instant as `DateTime::<Utc>::to_rfc3339` writes it; `None` where
/// `chrono` has no date for it.
pub uninterp spec fn rfc3339_of(secs: i64, nanos: u32) -> Option<Seq<char>>;

/// Whether `chrono` has a date for the instant `secs` seconds after the
/// epoch.
pub uninterp spec fn has_date(secs: i64) -> bool;

/// A pair of seconds and nanoseconds as a `Timestamp`.
pub open spec fn instant(pair: Option<(i64, u32)>) -> Option<Timestamp> {
    match pair {
        Some((secs, nanos)) => Some(Timestamp { secs, nanos }),
        None => None,
    }
}

/// Calls `chrono::Utc::now`, which reads the system clock and panics where
/// that stands before the epoch. Trusted; nothing is claimed of the result.
#[verifier::external_body]
pub(crate) fn now() -> (instant: Timestamp) {
    let t = chrono::Utc::now();
    Timestamp { secs: t.timestamp(), nanos: t.timestamp_subsec_nanos() }
}

/// Calls `str::parse::<chrono::DateTime<chrono::Utc>>`. Trusted: the
/// outcome depends on the text alone.
#[verifier::external_body]
pub(crate) fn parse_utc(text: &str) -> (r: Option<Timestamp>)
    ensures
        r == instant(utc_of_text(text@)),
{
    let t = text.parse::<chrono::DateTime<chrono::Utc>>().ok()?;
    Some(Timestamp { secs: t.timestamp(), nanos: t.timestamp_subsec_nanos() })
}

/// Calls `chrono::DateTime::parse_from_rfc3339` and takes the result to
/// UTC. Trusted: the outcome depends on the text alone.
#[verifier::external_body]
pub(crate) fn parse_rfc3339(text: &str) -> (r: Result<Timestamp, chrono::ParseError>)
    ensures
        r.is_ok() == utc_of_rfc3339(text@).is_some(),
        r matches Ok(t) ==> instant(utc_of_rfc3339(text@)) == Some(t),
{
    let t = chrono::DateTime::parse_from_rfc3339(text)?.with_timezone(&chrono::Utc);
    Ok(Timestamp { secs: t.timestamp(), nanos: t.timestamp_subsec_nanos() })
}

/// Calls `chrono::DateTime::<Utc>::to_rfc3339` on the date that
/// `DateTime::from_timestamp` makes of the instant. Trusted: the outcome
/// depends on the instant alone.
#[verifier::external_body]
pub(crate) fn format_rfc3339(t: Timestamp) -> (r: Option<String>)
    ensures
        r.is_some() == rfc3339_of(t.secs, t.nanos).is_some(),
        r matches Some(text) ==> rfc3339_of(t.secs, t.nanos) == Some(text@),
{
    chrono::DateTime::from_timestamp(t.secs, t.nanos).map(|date| date.to_rfc3339())
}

/// Calls `chrono::DateTime::from_timestamp` with no nanoseconds. Trusted:
/// as `chrono` documents it, the date made, if any, has the seconds given.
#[verifier::external_body]
pub(crate) fn instant_of_seconds(secs: i64) -> (r: Option<Timestamp>)
    ensures
        r == if has_date(secs) {
            Some(Timestamp { secs, nanos: 0 })
        } else {
            None
        },
{
    let t = chrono::DateTime::from_timestamp(secs, 0)?;
    Some(Timestamp { secs: t.timestamp(), nanos: t.timestamp_subsec_nanos() })
}

} // verus!
