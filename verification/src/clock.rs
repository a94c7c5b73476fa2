//! The machine's clock, and times as they are shown, by `chrono`.
use vstd::prelude::*;
use vstd::string::*;

verus! {

/// The first second that has a date: the start of the year -262143.
pub const FIRST_SECOND: i64 = -8334601228800;

/// The last second that has a date: the end of the year 262142.
pub const LAST_SECOND: i64 = 8210266876799;

pub const SECONDS_PER_DAY: i64 = 86400;

pub const NANOS_PER_SECOND: u32 = 1000000000;

/// A number of seconds since 1970 has a date.
pub open spec fn has_date(seconds: int) -> bool {
    FIRST_SECOND <= seconds <= LAST_SECOND
}

/// A time, and the time some days later, have a date.
pub open spec fn has_date_later(seconds: i64, days: i64) -> bool {
    has_date(seconds as int) && has_date(seconds + days * SECONDS_PER_DAY)
}

/// Nanoseconds make no whole second.
pub open spec fn below_a_second(nanos: u32) -> bool {
    nanos < NANOS_PER_SECOND
}

/// `chrono::Utc::now()`: the time by the machine's clock, in whole seconds since
/// 1970 and nanoseconds. It has a date, and the nanoseconds make no second; nothing
/// more is claimed of the time.
#[verifier::external_body]
pub(crate) fn utc_now() -> (now: (i64, u32))
    ensures
        has_date(now.0 as int),
        below_a_second(now.1),
{
    let now = chrono::Utc::now();
    (now.timestamp(), now.timestamp_subsec_nanos())
}

/// The notation of the date and time that come some days after a time; nothing where
/// one of the two times has no date.
pub uninterp spec fn days_later(seconds: i64, nanos: u32, days: i64) -> Option<Seq<char>>;

/// `chrono::DateTime::checked_add_signed` on `chrono::DateTime::from_timestamp`, shown
/// by `to_rfc3339`: the text depends on the time and the days alone, and there is one
/// exactly where the time and the time that many days later both have a date.
#[verifier::external_body]
pub(crate) fn rfc3339_days_later(seconds: i64, nanos: u32, days: i64) -> (r: Option<String>)
    ensures
        r.deep_view() == days_later(seconds, nanos, days),
        below_a_second(nanos) ==> (r is Some <==> has_date_later(seconds, days)),
{
    let time = chrono::DateTime::from_timestamp(seconds, nanos)?;
    let span = chrono::TimeDelta::try_days(days)?;
    Some(time.checked_add_signed(span)?.to_rfc3339())
}

/// How a time is shown.
pub const UTC_FORMAT: &'static str = "%Y-%m-%d %H:%M:%S UTC";

/// A time, in seconds since 1970, as a format shows it in UTC; nothing where the time is out of
/// the range of dates.
pub uninterp spec fn shown_utc(seconds: i64, format: Seq<char>) -> Option<Seq<char>>;

/// `chrono::DateTime::format` of `chrono::DateTime::from_timestamp`: what is shown of a time
/// depends on the time and the format alone.
#[verifier::external_body]
pub(crate) fn utc_text(seconds: i64, format: &str) -> (r: Option<String>)
    requires
        format@ == UTC_FORMAT@,
    ensures
        r.deep_view() == shown_utc(seconds, format@),
{
    Some(chrono::DateTime::from_timestamp(seconds, 0)?.format(format).to_string())
}

} // verus!
