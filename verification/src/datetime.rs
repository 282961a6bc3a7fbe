//! `xs:dateTime` values: an RFC 3339 timestamp, or an ISO 8601 date and time whose timezone may
//! be omitted, read as an instant in UTC.

use vstd::prelude::*;
use crate::DashMpdError;
use crate::mpd::XsDateTime;

verus! {

/// The date part of an ISO 8601 date and time, as the `iso8601` crate reads it.
#[derive(Debug, Clone, Copy, PartialEq, Eq, Structural)]
pub enum IsoDate {
    /// Year, month and day of the month.
    YMD { year: i32, month: u32, day: u32 },
    /// Year, week and day of the week.
    Week { year: i32, ww: u32, d: u32 },
    /// Year and day of the year.
    Ordinal { year: i32, ddd: u32 },
}

/// The time part of an ISO 8601 date and time.
#[derive(Debug, Clone, Copy, PartialEq, Eq, Structural)]
pub struct IsoTime {
    pub hour: u32,
    pub minute: u32,
    pub second: u32,
    pub millisecond: u32,
    pub tz_offset_hours: i32,
    pub tz_offset_minutes: i32,
}

#[derive(Debug, Clone, Copy, PartialEq, Eq, Structural)]
pub struct IsoDateTime {
    pub date: IsoDate,
    pub time: IsoTime,
}

/// The instant of an RFC 3339 timestamp, as seconds since the Unix epoch and nanoseconds.
pub uninterp spec fn rfc3339_instant(s: Seq<char>) -> Option<(i64, u32)>;

/// Calls `chrono::DateTime::<FixedOffset>::parse_from_rfc3339` and reads the instant of the
/// result (`timestamp` and `timestamp_subsec_nanos`). The result is a function of the string
/// and is named `rfc3339_instant`; nothing more is claimed.
#[verifier::external_body]
fn parse_rfc3339(s: &str) -> (r: Option<(i64, u32)>)
    ensures
        r == rfc3339_instant(s@),
{
    match chrono::DateTime::<chrono::FixedOffset>::parse_from_rfc3339(s) {
        Ok(dt) => Some((dt.timestamp(), dt.timestamp_subsec_nanos())),
        Err(_) => None,
    }
}

/// The fields of an ISO 8601 date and time, as `iso8601::datetime` reads them.
pub uninterp spec fn iso8601_fields(s: Seq<char>) -> Option<IsoDateTime>;

/// The ranges that the `iso8601` crate's time parser enforces: hours 0 to 24, minutes 0 to 59,
/// seconds 0 to 60, milliseconds below 1000 (further digits are truncated), and a timezone of at
/// most 24 hours and 59 minutes either way.
pub open spec fn iso_time_in_range(t: IsoTime) -> bool {
    &&& t.hour <= 24
    &&& t.minute <= 59
    &&& t.second <= 60
    &&& t.millisecond <= 999
    &&& -24 <= t.tz_offset_hours <= 24
    &&& -59 <= t.tz_offset_minutes <= 59
}

/// Calls `iso8601::datetime`, which parses an ISO 8601 date and time, and moves the fields of the
/// result. The result is a function of the string and is named `iso8601_fields`; the contract
/// also states the ranges of the time fields that the crate's parser enforces.
#[verifier::external_body]
fn parse_iso8601(s: &str) -> (r: Option<IsoDateTime>)
    ensures
        r == iso8601_fields(s@),
        r matches Some(dt) ==> iso_time_in_range(dt.time),
{
    let dt = iso8601::datetime(s).ok()?;
    let t = dt.time;
    let date = match dt.date {
        iso8601::Date::YMD { year, month, day } => IsoDate::YMD { year, month, day },
        iso8601::Date::Week { year, ww, d } => IsoDate::Week { year, ww, d },
        iso8601::Date::Ordinal { year, ddd } => IsoDate::Ordinal { year, ddd },
    };
    let (hour, minute, second, millisecond) = (t.hour, t.minute, t.second, t.millisecond);
    let (tz_offset_hours, tz_offset_minutes) = (t.tz_offset_hours, t.tz_offset_minutes);
    let time = IsoTime { hour, minute, second, millisecond, tz_offset_hours, tz_offset_minutes };
    Some(IsoDateTime { date, time })
}

/// The day number (counted from January 1 of year 1 in the proleptic Gregorian calendar) of a
/// calendar date, when chrono accepts the date.
pub uninterp spec fn ymd_days(year: i32, month: u32, day: u32) -> Option<i32>;

/// Calls `chrono::NaiveDate::from_ymd_opt` and reads `num_days_from_ce` of the date. Named
/// `ymd_days`; nothing more is claimed.
#[verifier::external_body]
fn days_of_ymd(year: i32, month: u32, day: u32) -> (r: Option<i32>)
    ensures
        r == ymd_days(year, month, day),
{
    chrono::NaiveDate::from_ymd_opt(year, month, day).map(|d| chrono::Datelike::num_days_from_ce(&d))
}

/// The day number of an ISO week date (the day of the week counted from 0 for Monday).
pub uninterp spec fn isoywd_days(year: i32, week: u32, weekday: u32) -> Option<i32>;

/// Calls `chrono::NaiveDate::from_isoywd_opt` with the weekday numbered `weekday` from 0 for
/// Monday, and reads `num_days_from_ce` of the date. Named `isoywd_days`; nothing more is claimed.
#[verifier::external_body]
fn days_of_isoywd(year: i32, week: u32, weekday: u32) -> (r: Option<i32>)
    requires
        weekday < 7,
    ensures
        r == isoywd_days(year, week, weekday),
{
    let wd = match weekday {
        0 => chrono::Weekday::Mon,
        1 => chrono::Weekday::Tue,
        2 => chrono::Weekday::Wed,
        3 => chrono::Weekday::Thu,
        4 => chrono::Weekday::Fri,
        5 => chrono::Weekday::Sat,
        _ => chrono::Weekday::Sun,
    };
    chrono::NaiveDate::from_isoywd_opt(year, week, wd).map(|d| chrono::Datelike::num_days_from_ce(&d))
}

/// The day number of an ordinal date (year and day of the year).
pub uninterp spec fn yo_days(year: i32, ordinal: u32) -> Option<i32>;

/// Calls `chrono::NaiveDate::from_yo_opt` and reads `num_days_from_ce` of the date. Named
/// `yo_days`; nothing more is claimed.
#[verifier::external_body]
fn days_of_yo(year: i32, ordinal: u32) -> (r: Option<i32>)
    ensures
        r == yo_days(year, ordinal),
{
    chrono::NaiveDate::from_yo_opt(year, ordinal).map(|d| chrono::Datelike::num_days_from_ce(&d))
}

/// Whether chrono can represent the day with this number (counted from January 1 of year 1 as
/// day 1): the days from `NaiveDate::MIN` (January 1, 262144 BCE) to `NaiveDate::MAX` (December 31,
/// 262142 CE).
pub open spec fn ce_day_valid(days: int) -> bool {
    -95746129 <= days <= 95745399
}

/// The day number of January 1, 1970.
pub open spec fn unix_epoch_day() -> int {
    719163
}

/// The day number of the date part: a calendar date, a week date (whose day of the week is read
/// as chrono's `Weekday::from_u32` reads it, from 0 for Monday to 6 for Sunday), or an ordinal
/// date.
pub open spec fn date_days(d: IsoDate) -> Option<i32> {
    match d {
        IsoDate::YMD { year, month, day } => ymd_days(year, month, day),
        IsoDate::Week { year, ww, d } => if d < 7 {
            isoywd_days(year, ww, d)
        } else {
            None
        },
        IsoDate::Ordinal { year, ddd } => yo_days(year, ddd),
    }
}

/// A time of day that chrono accepts (`NaiveTime::from_hms_nano_opt`): hour below 24, minute and
/// second below 60, and nanoseconds below one second, or below two seconds during a leap second
/// (second 59).
pub open spec fn valid_time_of_day(hour: u32, minute: u32, second: u32, nano: u32) -> bool {
    &&& hour < 24
    &&& minute < 60
    &&& second < 60
    &&& nano < 2_000_000_000
    &&& (nano >= 1_000_000_000 ==> second == 59)
}

/// The instant (seconds since the Unix epoch and nanoseconds) of the local date and time made of
/// day number `days`, the time of day and the timezone offset `offset` (in seconds east of UTC),
/// moved to UTC: `None` when the day is out of chrono's range, the time of day is not one that
/// chrono accepts, the offset is not strictly less than a day either way (what
/// `FixedOffset::east_opt` accepts), or the UTC date is out of chrono's range.
pub open spec fn spec_local_instant(days: i32, hour: u32, minute: u32, second: u32, nano: u32, offset: i32) -> Option<
    (i64, u32),
> {
    if !ce_day_valid(days as int) || !valid_time_of_day(hour, minute, second, nano) || !(-86400 < offset < 86400) {
        None
    } else {
        let local = hour * 3600 + minute * 60 + second - offset;
        let shift = local / 86400;
        let secs = local % 86400;
        if !ce_day_valid(days + shift) {
            None
        } else {
            Some((((days + shift - unix_epoch_day()) * 86400 + secs) as i64, nano))
        }
    }
}

/// Calls chrono to build the local date and time (`NaiveDate::from_num_days_from_ce_opt`, then
/// `and_hms_nano_opt`), the timezone (`FixedOffset::east_opt`), and the instant in UTC
/// (`from_local_datetime`, which is single for a fixed offset, and `with_timezone`), read as a
/// Unix timestamp with its nanoseconds. Each step fails or succeeds as its documentation says
/// (see `spec_local_instant`, with `ce_day_valid` for the range of dates), and the instant is the
/// local time less the offset.
#[verifier::external_body]
fn local_datetime_instant(days: i32, hour: u32, minute: u32, second: u32, nano: u32, offset: i32) -> (r: Option<
    (i64, u32),
>)
    ensures
        r == spec_local_instant(days, hour, minute, second, nano, offset),
{
    let date = chrono::NaiveDate::from_num_days_from_ce_opt(days)?;
    let local = date.and_hms_nano_opt(hour, minute, second, nano)?;
    let zone = chrono::FixedOffset::east_opt(offset)?;
    match chrono::TimeZone::from_local_datetime(&zone, &local) {
        chrono::LocalResult::Single(dt) => {
            let utc = dt.with_timezone(&chrono::Utc);
            Some((utc.timestamp(), utc.timestamp_subsec_nanos()))
        },
        _ => None,
    }
}

/// The instant of an ISO 8601 date and time: its day number (from chrono) and its time of day
/// and timezone offset, moved to UTC (see `spec_local_instant`).
pub open spec fn iso_instant(dt: IsoDateTime) -> Option<(i64, u32)> {
    let t = dt.time;
    match date_days(dt.date) {
        None => None,
        Some(days) => spec_local_instant(
            days,
            t.hour,
            t.minute,
            t.second,
            (t.millisecond * 1_000_000) as u32,
            (t.tz_offset_hours * 3600 + t.tz_offset_minutes * 60) as i32,
        ),
    }
}

/// The instant of an `xs:dateTime`: an RFC 3339 timestamp when it is one, else an ISO 8601 date
/// and time.
pub open spec fn xs_datetime_instant(s: Seq<char>) -> Option<(i64, u32)> {
    match rfc3339_instant(s) {
        Some(i) => Some(i),
        None => match iso8601_fields(s) {
            Some(dt) => iso_instant(dt),
            None => None,
        },
    }
}

/// The instant of the ISO 8601 date and time `dt` (as `iso8601::datetime` reads it).
pub fn iso_datetime_instant(dt: &IsoDateTime) -> (r: Option<(i64, u32)>)
    requires
        iso_time_in_range(dt.time),
    ensures
        r == iso_instant(*dt),
{
    let days = match dt.date {
        IsoDate::YMD { year, month, day } => days_of_ymd(year, month, day),
        IsoDate::Week { year, ww, d } => if d < 7 {
            days_of_isoywd(year, ww, d)
        } else {
            None
        },
        IsoDate::Ordinal { year, ddd } => days_of_yo(year, ddd),
    };
    let days = match days {
        Some(d) => d,
        None => return None,
    };
    let t = dt.time;
    let nano: u32 = t.millisecond * 1_000_000;
    let offset: i32 = t.tz_offset_hours * 3600 + t.tz_offset_minutes * 60;
    local_datetime_instant(days, t.hour, t.minute, t.second, nano, offset)
}

/// Parses an `xs:dateTime` (as per <https://www.w3.org/TR/xmlschema-2/#dateTime>), such as
/// "2021-06-03T13:00:00Z" or "2022-12-06T22:27:53", whose timezone may be omitted: first as an
/// RFC 3339 timestamp, then as an ISO 8601 date and time.
pub fn parse_xs_datetime(s: &str) -> (r: Result<XsDateTime, DashMpdError>)
    ensures
        match xs_datetime_instant(s@) {
            Some((secs, nanos)) => r == Ok::<XsDateTime, DashMpdError>(XsDateTime { secs, nanos }),
            None => r matches Err(DashMpdError::InvalidDateTime(m)) && m@ == s@,
        },
{
    if let Some((secs, nanos)) = parse_rfc3339(s) {
        return Ok(XsDateTime { secs, nanos });
    }
    let instant = match parse_iso8601(s) {
        Some(dt) => iso_datetime_instant(&dt),
        None => None,
    };
    match instant {
        Some((secs, nanos)) => Ok(XsDateTime { secs, nanos }),
        None => Err(DashMpdError::InvalidDateTime(s.to_owned())),
    }
}

} // verus!
