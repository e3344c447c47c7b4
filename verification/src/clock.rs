//! Points in time as text.

use vstd::prelude::*;
use vstd::string::*;

use crate::app::hints::{age_text, format_age};
use crate::text;

verus! {

/// The text that `chrono` gives for a time in epoch millis by RFC 3339, in UTC;
/// none where the time is out of its range.
pub uninterp spec fn rfc3339(ms: i64) -> Option<Seq<char>>;

/// Times less than about 247,000 years from the epoch.
pub open spec fn ordinary(ms: i64) -> bool {
    -7_800_000_000_000_000 < ms < 7_800_000_000_000_000
}

/// Calls `chrono::DateTime::from_timestamp_millis` and, where that gives a time,
/// its `to_rfc3339`. The result is determined by the number alone. There is a text
/// for ordinary times: dates of `chrono` reach from the year -262143 to 262142.
#[verifier::external_body]
fn utc_text(ms: i64) -> (r: Option<String>)
    ensures
        r.deep_view() == rfc3339(ms),
        ordinary(ms) ==> r is Some,
{
    match chrono::DateTime::from_timestamp_millis(ms) {
        Some(dt) => Some(dt.to_rfc3339()),
        None => None,
    }
}

/// The form of a date with a time of day: year, `-MM-DD HH:MM:SS`, with at least
/// four characters for the year.
pub open spec fn is_stamp(t: Seq<char>) -> bool {
    let n = t.len() as int;
    &&& n >= 19
    &&& t[n - 15] == '-' && t[n - 12] == '-' && t[n - 9] == ' '
    &&& t[n - 6] == ':' && t[n - 3] == ':'
}

/// Whether `t` is the date and time of day that an RFC 3339 text starts with, with
/// a blank in place of the `T`.
pub open spec fn starts_stamped(rfc: Seq<char>, t: Seq<char>) -> bool {
    t.len() <= rfc.len() && t == rfc.take(t.len() as int).update(t.len() - 9, ' ')
}

/// Whether a clock whose zone is less than a day off shows `at` at the time `ms`:
/// zones are whole seconds off.
pub open spec fn in_some_zone(ms: i64, at: i64) -> bool {
    -86_400_000 < at - ms < 86_400_000 && (at - ms) % 1000 == 0
}

/// Whether `t` is the date and time of day `ms` in some time zone. Where the zone
/// leads out of the range of dates, only the form is claimed.
pub open spec fn is_local(ms: i64, t: Seq<char>) -> bool {
    &&& is_stamp(t)
    &&& exists|at: i64|
        {
            &&& in_some_zone(ms, at)
            &&& (#[trigger] rfc3339(at)) matches Some(rfc) ==> starts_stamped(rfc, t)
            &&& ordinary(at) ==> rfc3339(at) is Some
        }
}

/// Calls `chrono::DateTime::from_timestamp_millis` and, where that gives a time,
/// formats it in the time zone of the machine (`with_timezone` with
/// `chrono::Local`, and `format`). It gives a text exactly for the times that
/// `utc_text` gives one for. The text is the date and time of day in a zone that
/// is less than a day off; which zone is left unsaid: that is the machine's.
#[verifier::external_body]
fn local_text(ms: i64) -> (r: Option<String>)
    ensures
        r is Some == rfc3339(ms) is Some,
        ordinary(ms) ==> r is Some,
        r matches Some(t) ==> is_local(ms, t@),
{
    match chrono::DateTime::from_timestamp_millis(ms) {
        Some(dt) => Some(
            dt.with_timezone(&chrono::Local).format("%Y-%m-%d %H:%M:%S").to_string(),
        ),
        None => None,
    }
}

/// A text that was found, or `other` in its place.
pub open spec fn found_or(found: Option<Seq<char>>, other: Seq<char>) -> Seq<char> {
    match found {
        Some(t) => t,
        None => other,
    }
}

pub fn text_or(found: Option<String>, other: &str) -> (r: String)
    ensures
        r@ == found_or(found.deep_view(), other@),
{
    match found {
        Some(t) => t,
        None => text::owned(other),
    }
}

/// A time by RFC 3339; nothing where it is out of range.
pub fn iso(ms: i64) -> (r: String)
    ensures
        r@ == found_or(rfc3339(ms), ""@),
        ordinary(ms) ==> rfc3339(ms) is Some,
{
    text_or(utc_text(ms), "")
}

/// Whether `t` shows the time `ms` in some time zone: a dash stands for a time
/// that is out of range, which no ordinary one is.
pub open spec fn shows_time(ms: i64, t: Seq<char>) -> bool {
    &&& match rfc3339(ms) {
        Some(_) => is_local(ms, t),
        None => t == "-"@,
    }
    &&& ordinary(ms) ==> is_local(ms, t)
}

/// A time in the time zone of the machine, or a dash where it is out of range.
/// Which zone that is, is not stated.
pub fn local(ms: i64) -> (r: String)
    ensures
        shows_time(ms, r@),
{
    text_or(local_text(ms), "-")
}

/// The text of a time that may be missing: empty where it is.
pub open spec fn is_time(ms: Option<i64>, t: Seq<char>) -> bool {
    match ms {
        Some(ts) => shows_time(ts, t),
        None => t.len() == 0,
    }
}

pub(crate) fn time_text(ms: Option<i64>) -> (r: String)
    ensures
        is_time(ms, r@),
{
    match ms {
        Some(ts) => local(ts),
        None => text::empty(),
    }
}

/// How long ago a time was. `now` is the time in epoch millis.
pub fn age(ms: i64, now: i64) -> (r: String)
    ensures
        r@ == age_text(ms as int, now as int),
{
    format_age(ms, now)
}

} // verus!
