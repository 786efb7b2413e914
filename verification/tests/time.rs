use trash_core::time::{parse_trash_datetime, serialize_system_time, Timestamp, LISTING_TIME_FORMAT, TRASHINFO_TIME_FORMAT};

fn at(year: i32, month: u32, day: u32, hour: u32, minute: u32, second: u32) -> Timestamp {
    Timestamp { year, month, day, hour, minute, second, nanosecond: 0 }
}

#[test]
fn formats() {
    assert_eq!(TRASHINFO_TIME_FORMAT, "%Y-%m-%dT%H:%M:%S");
    assert_eq!(LISTING_TIME_FORMAT, "%Y-%m-%d %H:%M:%S");
}

#[test]
fn trashinfo_dates_are_parsed() {
    assert_eq!(parse_trash_datetime("2024-03-05T17:08:09"), Some(at(2024, 3, 5, 17, 8, 9)));
    assert_eq!(parse_trash_datetime("1970-01-01T00:00:00"), Some(at(1970, 1, 1, 0, 0, 0)));
}

#[test]
fn rfc3339_dates_are_moved_to_utc() {
    assert_eq!(parse_trash_datetime("2024-03-05T17:08:09Z"), Some(at(2024, 3, 5, 17, 8, 9)));
    assert_eq!(parse_trash_datetime("2024-03-05T17:08:09+02:00"), Some(at(2024, 3, 5, 15, 8, 9)));
    assert_eq!(parse_trash_datetime("2024-01-01T00:30:00+01:00"), Some(at(2023, 12, 31, 23, 30, 0)));
}

#[test]
fn other_texts_are_no_dates() {
    assert_eq!(parse_trash_datetime(""), None);
    assert_eq!(parse_trash_datetime("yesterday"), None);
    assert_eq!(parse_trash_datetime("2024-13-05T17:08:09"), None);
    assert_eq!(parse_trash_datetime("2024-03-05"), None);
}

#[test]
fn leap_second_is_kept() {
    let t = parse_trash_datetime("2015-06-30T23:59:60").unwrap();
    assert_eq!((t.second, t.nanosecond), (59, 1_000_000_000));
}

#[test]
fn system_time_in_the_trashinfo_format() {
    assert_eq!(serialize_system_time(0), Some("1970-01-01T00:00:00".to_string()));
    assert_eq!(serialize_system_time(1_709_658_489), Some("2024-03-05T17:08:09".to_string()));
    assert_eq!(serialize_system_time(-1), Some("1969-12-31T23:59:59".to_string()));
}

#[test]
fn system_time_out_of_range() {
    assert_eq!(serialize_system_time(i64::MAX), None);
    assert_eq!(serialize_system_time(i64::MIN), None);
}
