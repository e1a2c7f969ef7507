//! Instants and day counts. An instant is a number of seconds since the Unix
//! epoch.

use vstd::prelude::*;

verus! {

/// The length of a day, in seconds.
pub const SECONDS_PER_DAY: i64 = 86_400;

/// The length of an hour, in seconds.
pub const SECONDS_PER_HOUR: i64 = 3_600;

/// The number of whole days from `from` to `to`: the difference in days,
/// rounded toward zero, negative when `to` is the earlier instant.
pub open spec fn whole_days(from: int, to: int) -> int {
    if to >= from {
        (to - from) / 86_400
    } else {
        -((from - to) / 86_400)
    }
}

/// Counts the whole days from `date1` to `date2`.
pub fn days_between(date1: i64, date2: i64) -> (days: i64)
    ensures
        days == whole_days(date1 as int, date2 as int),
{
    let diff: i128 = date2 as i128 - date1 as i128;
    let q: i128 = diff / 86_400;
    q as i64
}

/// What `chrono` reads from a text as an RFC 3339 date and time: the instant
/// it denotes, or nothing where the text is not such a date.
pub uninterp spec fn rfc3339_seconds(text: Seq<char>) -> Option<i64>;

/// `chrono::DateTime::parse_from_rfc3339`, the date handed out as its
/// `timestamp`. Believed: the outcome is a function of the text alone.
#[verifier::external_body]
pub(crate) fn parse_rfc3339(text: &str) -> (r: Option<i64>)
    ensures
        r == rfc3339_seconds(text@),
{
    match chrono::DateTime::parse_from_rfc3339(text) {
        Ok(date) => Some(date.timestamp()),
        Err(_) => None,
    }
}

} // verus!
