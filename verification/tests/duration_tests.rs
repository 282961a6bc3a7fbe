use dash_mpd::duration::{parse_xs_duration, serialize_xs_duration, xs_duration_overflows, XsDuration};
use dash_mpd::DashMpdError;

fn d(secs: u64, nanos: u32) -> XsDuration {
    XsDuration::new(secs, nanos)
}

#[test]
fn test_parse_xs_duration() {
    assert!(parse_xs_duration("").is_err());
    assert!(parse_xs_duration("foobles").is_err());
    assert!(parse_xs_duration("P").is_err());
    assert!(parse_xs_duration("PW").is_err());
    assert!(parse_xs_duration("-PT4.5S").is_err());
    assert!(parse_xs_duration("1Y2M3DT4H5M6S").is_err());
    assert_eq!(parse_xs_duration("PT3H11M53S").ok(), Some(d(11513, 0)));
    assert_eq!(parse_xs_duration("PT42M30S").ok(), Some(d(2550, 0)));
    assert_eq!(parse_xs_duration("PT30M38S").ok(), Some(d(1838, 0)));
    assert_eq!(parse_xs_duration("PT0H10M0.00S").ok(), Some(d(600, 0)));
    assert_eq!(parse_xs_duration("PT1.5S").ok(), Some(d(1, 500_000_000)));
    assert_eq!(parse_xs_duration("PT1.500S").ok(), Some(d(1, 500_000_000)));
    assert_eq!(parse_xs_duration("PT1.500000000S").ok(), Some(d(1, 500_000_000)));
    assert_eq!(parse_xs_duration("PT0S").ok(), Some(d(0, 0)));
    assert_eq!(parse_xs_duration("PT0.001S").ok(), Some(d(0, 1_000_000)));
    assert_eq!(parse_xs_duration("PT0.00100S").ok(), Some(d(0, 1_000_000)));
    assert_eq!(parse_xs_duration("PT344S").ok(), Some(d(344, 0)));
    assert_eq!(parse_xs_duration("PT634.566S").ok(), Some(d(634, 566_000_000)));
    assert_eq!(parse_xs_duration("PT72H").ok(), Some(d(72 * 60 * 60, 0)));
    assert_eq!(parse_xs_duration("PT0H0M30.030S").ok(), Some(d(30, 30_000_000)));
    assert_eq!(parse_xs_duration("PT1004199059S").ok(), Some(d(1004199059, 0)));
    assert_eq!(parse_xs_duration("P0Y20M0D").ok(), Some(d(51840000, 0)));
    assert_eq!(parse_xs_duration("PT1M30.5S").ok(), Some(d(90, 500_000_000)));
    assert_eq!(parse_xs_duration("PT10M10S").ok(), Some(d(610, 0)));
    assert_eq!(parse_xs_duration("PT1H0.040S").ok(), Some(d(3600, 40_000_000)));
    assert_eq!(parse_xs_duration("PT00H03M30SZ").ok(), Some(d(210, 0)));
    assert_eq!(parse_xs_duration("PT3.14159S").ok(), Some(d(3, 141_590_000)));
    assert_eq!(parse_xs_duration("PT3.14159265S").ok(), Some(d(3, 141_592_650)));
    assert_eq!(parse_xs_duration("PT3.141592653S").ok(), Some(d(3, 141_592_653)));
    assert_eq!(parse_xs_duration("PT3.141592653897S").ok(), Some(d(3, 141_592_653)));
    assert_eq!(parse_xs_duration("P0W").ok(), Some(d(0, 0)));
    assert_eq!(parse_xs_duration("P26W").ok(), Some(d(15724800, 0)));
    assert_eq!(parse_xs_duration("P52W").ok(), Some(d(31449600, 0)));
    assert_eq!(parse_xs_duration("P10D").ok(), Some(d(864000, 0)));
    assert_eq!(parse_xs_duration("P0Y").ok(), Some(d(0, 0)));
    assert_eq!(parse_xs_duration("P1Y").ok(), Some(d(31536000, 0)));
    assert_eq!(parse_xs_duration("P1Y0W0S").ok(), Some(d(31536000, 0)));
    assert_eq!(parse_xs_duration("PT4H").ok(), Some(d(14400, 0)));
    assert_eq!(parse_xs_duration("+PT4H").ok(), Some(d(14400, 0)));
    assert_eq!(parse_xs_duration("PT0004H").ok(), Some(d(14400, 0)));
    assert_eq!(parse_xs_duration("PT4H0M").ok(), Some(d(14400, 0)));
    assert_eq!(parse_xs_duration("PT4H0S").ok(), Some(d(14400, 0)));
    assert_eq!(parse_xs_duration("P23DT23H").ok(), Some(d(2070000, 0)));
    assert_eq!(parse_xs_duration("P0Y0M0DT0H4M20.880S").ok(), Some(d(260, 880_000_000)));
    assert_eq!(parse_xs_duration("P1Y2M3DT4H5M6.7S").ok(), Some(d(36993906, 700_000_000)));
    assert_eq!(parse_xs_duration("P1Y2M3DT4H5M6,7S").ok(), Some(d(36993906, 700_000_000)));
}

#[test]
fn test_serialize_xs_duration() {
    assert_eq!("PT0S", serialize_xs_duration(&d(0, 0)));
    assert_eq!("PT0.001S", serialize_xs_duration(&d(0, 1_000_000)));
    assert_eq!("PT42S", serialize_xs_duration(&d(42, 0)));
    assert_eq!("PT1.5S", serialize_xs_duration(&d(1, 500_000_000)));
    assert_eq!("PT30.03S", serialize_xs_duration(&d(30, 30_000_000)));
    assert_eq!("PT1M30.5S", serialize_xs_duration(&d(90, 500_000_000)));
    assert_eq!("PT5M44S", serialize_xs_duration(&d(344, 0)));
    assert_eq!("PT42M30S", serialize_xs_duration(&d(2550, 0)));
    assert_eq!("PT30M38S", serialize_xs_duration(&d(1838, 0)));
    assert_eq!("PT10M10S", serialize_xs_duration(&d(610, 0)));
    assert_eq!("PT1H0M0.04S", serialize_xs_duration(&d(3600, 40_000_000)));
    assert_eq!("PT3H11M53S", serialize_xs_duration(&d(11513, 0)));
    assert_eq!("PT4H0M0S", serialize_xs_duration(&d(14400, 0)));
}

#[test]
fn duration_roundtrip_on_examples() {
    for (secs, nanos) in [(0u64, 0u32), (1, 500_000_000), (3600, 40_000_000), (11513, 0), (59, 999_999_999), (86399, 1)] {
        let dur = d(secs, nanos);
        let text = serialize_xs_duration(&dur);
        assert!(!xs_duration_overflows(&text));
        assert_eq!(parse_xs_duration(&text).ok(), Some(dur));
    }
}

#[test]
fn duration_new_carries_nanoseconds() {
    let dur = d(1, 1_500_000_000);
    assert_eq!(dur.as_secs(), 2);
    assert_eq!(dur.subsec_nanos(), 500_000_000);
}

#[test]
fn duration_error_is_invalid_duration() {
    match parse_xs_duration("foobles") {
        Err(DashMpdError::InvalidDuration(_)) => {}
        other => panic!("unexpected {other:?}"),
    }
}

#[test]
fn duration_overflow_is_detected() {
    // Hours that fit a u64 but whose seconds do not.
    assert!(xs_duration_overflows("PT99999999999999999H"));
    assert!(!xs_duration_overflows("PT4H"));
    // Seconds that do not fit a u64 are a parse error, not an overflow.
    assert!(!xs_duration_overflows("PT99999999999999999999S"));
    assert!(parse_xs_duration("PT99999999999999999999S").is_err());
}
