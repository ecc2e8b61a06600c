//! Instants as text: the two RFC 3339 renderings that the service uses, and reading one back.

use vstd::prelude::*;

use crate::model::Timestamp;

verus! {

/// The first second of the year -262143, the earliest that can be rendered.
pub const FIRST_SECOND: i64 = -8_334_601_228_800;

/// The last second of the year 262142, the latest that can be rendered.
pub const LAST_SECOND: i64 = 8_210_266_876_799;

/// The instants that have a calendar date: the second lies in the range of the calendar, and the
/// nanoseconds are below one second, or below two in the last second of a minute, which stands for
/// a leap second.
pub open spec fn valid_instant(instant: Timestamp) -> bool {
    &&& FIRST_SECOND <= instant.seconds <= LAST_SECOND
    &&& instant.nanos < 2_000_000_000
    &&& instant.nanos >= 1_000_000_000 ==> instant.seconds % 60 == 59
}

/// The RFC 3339 text of a UTC instant, with a numeric offset.
pub uninterp spec fn offset_text(seconds: i64, nanos: u32) -> Seq<char>;

/// The RFC 3339 text of a UTC instant, with `Z` for the offset.
pub uninterp spec fn zulu_text(seconds: i64, nanos: u32) -> Seq<char>;

/// The instant that a date and time text denotes: the second and the nanoseconds after it.
pub uninterp spec fn denoted_instant(text: Seq<char>) -> Option<(i64, u32)>;

/// Renders an instant with a numeric offset, as status responses show it.
///
/// Trusted wrapper of `chrono::DateTime::to_rfc3339`, on the value that
/// `chrono::DateTime::from_timestamp` makes of the instant. The text is only named.
#[verifier::external_body]
pub(crate) fn to_rfc3339(instant: Timestamp) -> (text: String)
    requires
        valid_instant(instant),
    ensures
        text@ == offset_text(instant.seconds, instant.nanos),
{
    chrono::DateTime::from_timestamp(instant.seconds, instant.nanos)
        .map(|moment| moment.to_rfc3339())
        .unwrap_or_default()
}

/// Renders an instant with `Z` for the offset, as persisted data holds it.
///
/// Trusted wrapper of `chrono::DateTime::to_rfc3339_opts` with automatic sub-second digits, on the
/// value that `chrono::DateTime::from_timestamp` makes of the instant. The text is only named; of
/// it the contract claims that parsing it as a `chrono::DateTime` gives back the same instant.
#[verifier::external_body]
pub(crate) fn to_zulu(instant: Timestamp) -> (text: String)
    requires
        valid_instant(instant),
    ensures
        text@ == zulu_text(instant.seconds, instant.nanos),
        denoted_instant(text@) == Some((instant.seconds, instant.nanos)),
{
    chrono::DateTime::from_timestamp(instant.seconds, instant.nanos)
        .map(|moment| moment.to_rfc3339_opts(chrono::SecondsFormat::AutoSi, true))
        .unwrap_or_default()
}

/// Reads a date and time text.
///
/// Trusted wrapper of the standard parsing of a `chrono::DateTime` in UTC, which accepts RFC 3339.
/// The instant is only named; of it the contract claims that it has a calendar date.
#[verifier::external_body]
pub(crate) fn parse_instant(text: &str) -> (instant: Option<Timestamp>)
    ensures
        match instant {
            Some(instant) => valid_instant(instant) && denoted_instant(text@) == Some(
                (instant.seconds, instant.nanos),
            ),
            None => denoted_instant(text@) is None,
        },
{
    let moment = text.parse::<chrono::DateTime<chrono::Utc>>().ok()?;
    Some(Timestamp { seconds: moment.timestamp(), nanos: moment.timestamp_subsec_nanos() })
}

} // verus!
