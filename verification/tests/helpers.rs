use std::time::Duration;
use trash_core::decimal::{decimal_chars, digit_char, two_digit_chars};
use trash_core::helpers::{build_unique_basename, first_entry_name, format_duration, format_seconds, sanitize_user_path, TRASHINFO_EXTENSION};

#[test]
fn extension() {
    assert_eq!(TRASHINFO_EXTENSION, ".trashinfo");
}

#[test]
fn decimal_is_that_of_to_string() {
    for n in [0u64, 1, 9, 10, 11, 99, 100, 101, 1000, 65535, 4294967295, u64::MAX] {
        let text: String = decimal_chars(n).iter().collect();
        assert_eq!(text, n.to_string());
    }
    assert_eq!(digit_char(0), '0');
    assert_eq!(digit_char(9), '9');
    assert_eq!(two_digit_chars(0), vec!['0', '0']);
    assert_eq!(two_digit_chars(7), vec!['0', '7']);
    assert_eq!(two_digit_chars(42), vec!['4', '2']);
    assert_eq!(two_digit_chars(100), vec!['1', '0', '0']);
}

#[test]
fn user_path_is_trimmed() {
    assert_eq!(sanitize_user_path("  /home/u/file \n"), "/home/u/file");
    assert_eq!(sanitize_user_path("/a b/c"), "/a b/c");
    assert_eq!(sanitize_user_path(" \t "), "");
    assert_eq!(sanitize_user_path(""), "");
}

#[test]
fn unique_basename() {
    assert_eq!(build_unique_basename("/home/u/report.txt", 3), "report.txt.3");
    assert_eq!(build_unique_basename("report.txt", 0), "report.txt.0");
    assert_eq!(build_unique_basename("/home/u/dir/", 12), "dir.12");
    assert_eq!(build_unique_basename("a", u64::MAX), "a.18446744073709551615");
}

#[test]
fn unique_basename_without_a_file_name() {
    assert_eq!(build_unique_basename("", 1), "item.1");
    assert_eq!(build_unique_basename("/", 2), "item.2");
    assert_eq!(build_unique_basename("a/..", 3), "item.3");
}

#[test]
fn durations_in_words() {
    assert_eq!(format_seconds(0), "0s");
    assert_eq!(format_seconds(59), "59s");
    assert_eq!(format_seconds(60), "1m 00s");
    assert_eq!(format_seconds(61), "1m 01s");
    assert_eq!(format_seconds(3599), "59m 59s");
    assert_eq!(format_seconds(3600), "1h 00:00");
    assert_eq!(format_seconds(3661), "1h 01:01");
    assert_eq!(format_seconds(86399), "23h 59:59");
    assert_eq!(format_seconds(86400), "1d 00:00:00");
    assert_eq!(format_seconds(90061), "1d 01:01:01");
    assert_eq!(format_seconds(u64::MAX), "213503982334601d 07:00:15");
}

#[test]
fn duration_counts_whole_seconds() {
    assert_eq!(format_duration(Duration::from_millis(61_999)), "1m 01s");
    assert_eq!(format_duration(Duration::from_secs(3600)), "1h 00:00");
    assert_eq!(format_duration(Duration::ZERO), "0s");
}

#[test]
fn first_entry_in_lower_case() {
    assert_eq!(first_entry_name(&vec!["README.TXT".to_string(), "Other".to_string()]), Some("readme.txt".to_string()));
    assert_eq!(first_entry_name(&vec!["ÀB-z[@`{".to_string()]), Some("Àb-z[@`{".to_string()));
    assert_eq!(first_entry_name(&vec!["".to_string()]), Some("".to_string()));
    assert_eq!(first_entry_name(&Vec::new()), None);
    for name in ["MiXeD", "ÉCOLE", "AZaz09"] {
        assert_eq!(first_entry_name(&vec![name.to_string()]), Some(name.to_ascii_lowercase()));
    }
}
