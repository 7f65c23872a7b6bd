use chrono::NaiveDateTime;
use todo_list::datetime::DateTime;

#[test]
fn from_timestamp_takes_what_the_calendar_has() {
    let epoch = DateTime::from_timestamp(0, 0).unwrap();
    assert_eq!(epoch.timestamp(), 0);
    assert_eq!(epoch.subsec_nanos(), 0);
    assert_eq!(epoch.format(), "1970-01-01 00:00");
    let late = DateTime::from_timestamp(1_607_804_459, 999_999_999).unwrap();
    assert_eq!(late.timestamp(), 1_607_804_459);
    assert_eq!(late.subsec_nanos(), 999_999_999);
    assert_eq!(late.format(), "2020-12-12 20:20");
    let before = DateTime::from_timestamp(-60, 0).unwrap();
    assert_eq!(before.format(), "1969-12-31 23:59");
    assert!(DateTime::from_timestamp(i64::MAX, 0).is_none());
    assert!(DateTime::from_timestamp(i64::MIN, 0).is_none());
    assert!(DateTime::from_timestamp(0, 2_000_000_000).is_none());
}

#[test]
fn parse_reads_to_the_minute() {
    let read = DateTime::parse("2020-12-12 20:20").unwrap();
    let expected = NaiveDateTime::parse_from_str("2020-12-12 20:20", "%Y-%m-%d %H:%M").unwrap().and_utc();
    assert_eq!(read.timestamp(), expected.timestamp());
    assert_eq!(read.timestamp(), 1_607_804_400);
    assert_eq!(read.subsec_nanos(), 0);
    assert_eq!(read.format(), "2020-12-12 20:20");
    assert!(DateTime::parse("2020-12-12").is_none());
    assert!(DateTime::parse("2020-13-12 20:20").is_none());
    assert!(DateTime::parse("2020-12-12 20:20:00").is_none());
    assert!(DateTime::parse("").is_none());
}

#[test]
fn points_in_time_are_ordered_by_second_and_nanosecond() {
    let early = DateTime::from_timestamp(10, 5).unwrap();
    let later = DateTime::from_timestamp(10, 6).unwrap();
    let latest = DateTime::from_timestamp(11, 0).unwrap();
    assert!(early.compare(&later) == later.compare(&latest));
    assert!(early.compare(&early) != early.compare(&later));
    assert!(latest.compare(&early) != early.compare(&latest));
}
