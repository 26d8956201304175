//! Clock readings and calendar formatting, through `chrono`.
use vstd::prelude::*;
use crate::domain::Timestamp;

verus! {

/// The RFC 3339 form, to the second and with a `Z` suffix, of a Unix timestamp in UTC, or
/// `None` where the timestamp is outside the calendar that `chrono` represents.
pub uninterp spec fn rfc3339_utc(timestamp: i64) -> Option<Seq<char>>;

/// `chrono::DateTime::<Utc>::from_timestamp(timestamp, 0)` formatted with
/// `to_rfc3339_opts(SecondsFormat::Secs, true)`. Claimed: the result is a function of the
/// timestamp alone, named `rfc3339_utc`; nothing more is stated of its text.
#[verifier::external_body]
pub(crate) fn utc_rfc3339(timestamp: Timestamp) -> (r: Option<String>)
    ensures
        match r {
            Some(s) => rfc3339_utc(timestamp) == Some(s@),
            None => rfc3339_utc(timestamp) is None,
        },
{
    match chrono::DateTime::<chrono::Utc>::from_timestamp(timestamp, 0) {
        Some(moment) => Some(moment.to_rfc3339_opts(chrono::SecondsFormat::Secs, true)),
        None => None,
    }
}

/// `chrono::DateTime::<Utc>::from_timestamp(timestamp, 0)` shown in the machine's time zone as
/// `%Y-%m-%d · %H:%M`. Claimed: there is a text exactly where `utc_rfc3339` has one, as both
/// come from the same `from_timestamp`; nothing is stated of the text, which depends on the
/// time zone.
#[verifier::external_body]
pub(crate) fn local_display(timestamp: Timestamp) -> (r: Option<String>)
    ensures
        r is None <==> rfc3339_utc(timestamp) is None,
{
    match chrono::DateTime::<chrono::Utc>::from_timestamp(timestamp, 0) {
        Some(moment) => Some(
            moment.with_timezone(&chrono::Local).format("%Y-%m-%d · %H:%M").to_string(),
        ),
        None => None,
    }
}

/// `chrono::Utc::now().timestamp()`: the current time; nothing is stated of it.
#[verifier::external_body]
pub(crate) fn now_timestamp() -> (r: Timestamp) {
    chrono::Utc::now().timestamp()
}

/// The day of a Unix timestamp in UTC, counted from 1970-01-01.
pub open spec fn utc_day(t: i64) -> int {
    t as int / 86400
}

/// The number of calendar days in the machine's time zone from `then` to `now`, through
/// `chrono`'s `date_naive().signed_duration_since(..).num_days()`; `None` where either
/// timestamp is outside `chrono`'s calendar. Claimed: there is a count exactly where both
/// timestamps have an RFC 3339 form (both come from the same `from_timestamp`), and the count
/// is within two of the number of UTC days between them: `chrono`'s local offsets are below
/// one day in size, so each local date is within one day of the UTC date. Nothing more is
/// stated of the count, which depends on the time zone.
#[verifier::external_body]
pub(crate) fn local_days_between(now: Timestamp, then: Timestamp) -> (r: Option<i64>)
    ensures
        r is None <==> (rfc3339_utc(now) is None || rfc3339_utc(then) is None),
        r matches Some(d) ==> utc_day(now) - utc_day(then) - 2 <= d <= utc_day(now) - utc_day(then) + 2,
{
    let now = chrono::DateTime::<chrono::Utc>::from_timestamp(now, 0)?;
    let then = chrono::DateTime::<chrono::Utc>::from_timestamp(then, 0)?;
    Some(
        now.with_timezone(&chrono::Local).date_naive().signed_duration_since(
            then.with_timezone(&chrono::Local).date_naive(),
        ).num_days(),
    )
}


} // verus!
