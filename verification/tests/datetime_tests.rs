use chrono::{NaiveDate, Weekday};
use dash_mpd::datetime::{iso_datetime_instant, parse_xs_datetime, IsoDate, IsoDateTime, IsoTime};
use dash_mpd::mpd::XsDateTime;
use dash_mpd::DashMpdError;

fn instant(dt: chrono::NaiveDateTime) -> XsDateTime {
    let utc = dt.and_utc();
    XsDateTime { secs: utc.timestamp(), nanos: utc.timestamp_subsec_nanos() }
}

#[test]
fn test_parse_xs_datetime() {
    let date = NaiveDate::from_ymd_opt(2023, 4, 19).unwrap().and_hms_opt(1, 3, 2).unwrap();
    assert_eq!(parse_xs_datetime("2023-04-19T01:03:02Z").ok(), Some(instant(date)));
    let date = NaiveDate::from_ymd_opt(2023, 4, 19).unwrap().and_hms_nano_opt(1, 3, 2, 958 * 1000 * 1000).unwrap();
    assert_eq!(parse_xs_datetime("2023-04-19T01:03:02.958Z").ok(), Some(instant(date)));
}

#[test]
fn datetime_without_timezone_is_utc() {
    let date = NaiveDate::from_ymd_opt(2022, 12, 6).unwrap().and_hms_opt(22, 27, 53).unwrap();
    assert_eq!(parse_xs_datetime("2022-12-06T22:27:53").unwrap(), instant(date));
}

#[test]
fn datetime_offset_moves_to_the_previous_day() {
    // Not RFC 3339 (no colon in the offset), read as ISO 8601.
    let date = NaiveDate::from_ymd_opt(2022, 12, 5).unwrap().and_hms_opt(23, 27, 53).unwrap();
    assert_eq!(parse_xs_datetime("2022-12-06T00:27:53+0100").unwrap(), instant(date));
}

#[test]
fn datetime_week_dates_number_days_from_monday_zero() {
    let date = NaiveDate::from_isoywd_opt(2023, 16, Weekday::Thu).unwrap().and_hms_opt(1, 3, 2).unwrap();
    assert_eq!(parse_xs_datetime("2023-W16-3T01:03:02Z").unwrap(), instant(date));
}

#[test]
fn datetime_errors() {
    match parse_xs_datetime("foobles") {
        Err(DashMpdError::InvalidDateTime(m)) => assert_eq!(m, "foobles"),
        other => panic!("unexpected {other:?}"),
    }
    assert!(parse_xs_datetime("2023-02-30T01:03:02").is_err());
}

#[test]
fn iso_instants_from_fields() {
    let t = IsoTime { hour: 24, minute: 0, second: 0, millisecond: 0, tz_offset_hours: 0, tz_offset_minutes: 0 };
    let dt = IsoDateTime { date: IsoDate::YMD { year: 2020, month: 1, day: 1 }, time: t };
    assert_eq!(iso_datetime_instant(&dt), None);
    let t = IsoTime { hour: 0, minute: 0, second: 0, millisecond: 5, tz_offset_hours: 0, tz_offset_minutes: 0 };
    let dt = IsoDateTime { date: IsoDate::Ordinal { year: 1970, ddd: 2 }, time: t };
    assert_eq!(iso_datetime_instant(&dt), Some((86400, 5_000_000)));
    let dt = IsoDateTime { date: IsoDate::Week { year: 1970, ww: 1, d: 7 }, time: t };
    assert_eq!(iso_datetime_instant(&dt), None);
}
