//! Times of measurement.

use jiff::tz::TimeZone;

use solaredge_exporter::measurement::{
    month_to_num, parse_iso_timestamp, parse_iso_timestamp_in, parse_last_measurement,
    parse_last_measurement_in, parse_legacy,
};

fn wall_clock(ts: i64) -> jiff::Zoned {
    jiff::Timestamp::from_second(ts)
        .expect("ts")
        .to_zoned(jiff::tz::TimeZone::system())
}

#[test]
fn parse_last_measurement_known_format() {
    let ts = parse_last_measurement("Sun Jun 21 12:00:00 CEST 2026").expect("parse");
    let back = wall_clock(ts);
    assert_eq!(back.year(), 2026);
    assert_eq!(back.month(), 6);
    assert_eq!(back.day(), 21);
    assert_eq!(back.hour(), 12);
    assert_eq!(back.minute(), 0);
    assert_eq!(back.second(), 0);
}

#[test]
fn parse_last_measurement_ignores_tz_label() {
    let ts = parse_last_measurement("Thu Apr 23 12:26:12 GMT 2026").expect("parse GMT-labelled");
    let back = wall_clock(ts);
    assert_eq!(back.year(), 2026);
    assert_eq!(back.month(), 4);
    assert_eq!(back.day(), 23);
    assert_eq!(back.hour(), 12);
    assert_eq!(back.minute(), 26);
    assert_eq!(back.second(), 12);
}

#[test]
fn parse_last_measurement_rejects_garbage() {
    assert!(parse_last_measurement("").is_none());
    assert!(parse_last_measurement("   ").is_none());
    assert!(parse_last_measurement("not a date").is_none());
    assert!(parse_last_measurement("Wed Foo 25 12:34:56 CET 2026").is_none());
    assert!(parse_last_measurement("2026-13-45T99:99:99Z").is_none());
    assert!(parse_last_measurement("T").is_none());
}

#[test]
fn parse_last_measurement_accepts_iso_utc() {
    let ts = parse_last_measurement("2026-07-28T10:15:00Z").expect("ISO with Z");
    assert_eq!(ts, 1785233700);
}

#[test]
fn parse_last_measurement_accepts_iso_with_offset() {
    let ts = parse_last_measurement("2026-07-28T12:15:00+02:00").expect("ISO with offset");
    assert_eq!(ts, 1785233700);
}

#[test]
fn parse_last_measurement_accepts_iso_with_fractional_seconds() {
    let ts = parse_last_measurement("2026-07-28T10:15:00.123Z").expect("ISO with millis");
    assert_eq!(ts, 1785233700);
}

#[test]
fn parse_last_measurement_offsetless_iso_uses_system_tz() {
    let ts = parse_last_measurement("2026-07-28T10:15:00").expect("offsetless ISO");
    let back = wall_clock(ts);
    assert_eq!(back.year(), 2026);
    assert_eq!(back.month(), 7);
    assert_eq!(back.day(), 28);
    assert_eq!(back.hour(), 10);
    assert_eq!(back.minute(), 15);
}

#[test]
fn white_space_around_a_measurement_does_not_matter() {
    assert_eq!(
        parse_last_measurement(" \t2026-07-28T10:15:00Z\n"),
        Some(1785233700)
    );
}

#[test]
fn legacy_times_keep_their_fields_whatever_their_labels() {
    let a = parse_legacy("Thu Apr 23 12:26:12 GMT 2026").expect("legacy");
    let b = parse_legacy("Mon Apr 23 12:26:12 PST 2026").expect("legacy");
    assert_eq!(a, b);
    assert_eq!((a.year, a.month, a.day), (2026, 4, 23));
    assert_eq!((a.hour, a.minute, a.second), (12, 26, 12));
    assert_eq!(
        parse_last_measurement("Thu Apr 23 12:26:12 GMT 2026"),
        parse_last_measurement("Mon Apr 23 12:26:12 PST 2026")
    );
}

#[test]
fn legacy_times_must_be_complete_and_on_the_calendar() {
    assert!(parse_last_measurement("Thu Apr 23 12:26 GMT 2026").is_none());
    assert!(parse_last_measurement("Apr 23 12:26:12 GMT 2026").is_none());
    assert!(parse_last_measurement("Thu Apr 31 12:26:12 GMT 2026").is_none());
    assert!(parse_last_measurement("Thu Apr 23 24:26:12 GMT 2026").is_none());
    assert!(parse_last_measurement("Sun Feb 29 12:00:00 GMT 2026").is_none());
    assert!(parse_last_measurement("Thu Feb 29 12:00:00 GMT 2024").is_some());
    assert!(parse_last_measurement("Thu Apr 999 12:26:12 GMT 2026").is_none());
}

#[test]
fn months_are_numbered_from_one() {
    assert_eq!(month_to_num("Jan"), Some(1));
    assert_eq!(month_to_num("Dec"), Some(12));
    assert_eq!(month_to_num("jan"), None);
}

#[test]
fn both_forms_of_a_civil_time_agree() {
    let iso = parse_last_measurement("2026-04-23T12:26:12").expect("ISO");
    for legacy in [
        "Thu Apr 23 12:26:12 GMT 2026",
        "Mon Apr 23 12:26:12 CEST 2026",
        "  Thu Apr 23 12:26:12 GMT 2026\n",
        "T Apr 23 12:26:12 T 2026",
    ] {
        assert_eq!(parse_last_measurement(legacy), Some(iso), "{legacy}");
    }
    assert_eq!(parse_last_measurement(" 2026-04-23T12:26:12 "), Some(iso));
    assert_eq!(parse_last_measurement("2026-04-23T12:26:12 a b"), None);
}

#[test]
fn a_civil_time_is_read_in_the_time_zone() {
    let zone = TimeZone::posix("CET-1CEST,M3.5.0,M10.5.0/3").expect("zone");
    for text in ["2026-07-28T12:15:00", "Tue Jul 28 12:15:00 GMT 2026", " Mon Jul 28 12:15:00 X 2026"] {
        assert_eq!(parse_last_measurement_in(text, &zone), Some(1785233700), "{text}");
    }
    assert_eq!(
        parse_last_measurement_in("2026-07-28T12:15:00", &TimeZone::UTC),
        Some(1785240900)
    );
    assert_eq!(
        parse_iso_timestamp_in("2026-07-28T10:15:00Z", &zone),
        Some(1785233700)
    );
    assert_eq!(parse_iso_timestamp("2026-07-28T10:15:00Z"), Some(1785233700));
    assert_eq!(parse_iso_timestamp_in("2026-07-28 12:15:00", &zone), None);
}
