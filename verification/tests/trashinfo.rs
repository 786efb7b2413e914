use trash_core::errors::CoreError;
use trash_core::paths::join_path;
use trash_core::time::Timestamp;
use trash_core::trashinfo::{backup_copy_path, date_or_unknown, deletion_date, extract_deletion_date, field, has_record_name, parse_path, read_record, show_deletion_date, ParseError, ScanOutcome, UNKNOWN_DELETION_DATE};

const RECORD: &str = "[Trash Info]\nPath=/home/u/my%20file.txt\nDeletionDate=2024-03-05T17:08:09\n";

#[test]
fn placeholder_text() {
    assert_eq!(UNKNOWN_DELETION_DATE, "????-??-?? ??:??:??");
}

#[test]
fn field_takes_first_occurrence() {
    assert_eq!(field("Path=a\nPath=b\n", "Path="), Some("a".to_string()));
    assert_eq!(field("x\nDeletionDate=d\nPath=p", "Path="), Some("p".to_string()));
    assert_eq!(field("Path=\n", "Path="), Some("".to_string()));
    assert_eq!(field(" Path=a\n", "Path="), None);
    assert_eq!(field("", "Path="), None);
    assert_eq!(field("Path=a\r\n", "Path="), Some("a".to_string()));
}

#[test]
fn path_is_percent_decoded() {
    assert_eq!(parse_path(RECORD), Ok("/home/u/my file.txt".to_string()));
    assert_eq!(parse_path("Path=foo/bar"), Ok("foo/bar".to_string()));
    assert_eq!(parse_path("Path=a%2Fb%C3%A9"), Ok("a/bé".to_string()));
    assert_eq!(parse_path("Path=a+b"), Ok("a+b".to_string()));
    assert_eq!(parse_path("Path=100%"), Ok("100%".to_string()));
    assert_eq!(parse_path("Path=a%zzb"), Ok("a%zzb".to_string()));
}

#[test]
fn record_without_path_is_a_parse_failure() {
    assert_eq!(parse_path("[Trash Info]\nDeletionDate=2024-03-05T17:08:09\n"), Err(ParseError::MissingPath));
    assert_eq!(parse_path(""), Err(ParseError::MissingPath));
    assert_eq!(parse_path("path=lower"), Err(ParseError::MissingPath));
}

#[test]
fn path_that_does_not_decode_is_a_parse_failure() {
    assert_eq!(parse_path("Path=%FF%FE"), Err(ParseError::InvalidEncoding));
    assert_eq!(parse_path("Path=%FF\nPath=ok"), Err(ParseError::InvalidEncoding));
}

#[test]
fn deletion_date_is_reformatted() {
    assert_eq!(extract_deletion_date(RECORD), "2024-03-05 17:08:09");
    assert_eq!(extract_deletion_date("DeletionDate=1999-12-31T23:59:59"), "1999-12-31 23:59:59");
    assert_eq!(extract_deletion_date("DeletionDate=2015-06-30T23:59:60"), "2015-06-30 23:59:60");
}

#[test]
fn unparseable_deletion_date_gives_the_placeholder() {
    assert_eq!(extract_deletion_date("Path=a\nDeletionDate=yesterday\n"), UNKNOWN_DELETION_DATE);
    assert_eq!(extract_deletion_date("DeletionDate=2024-02-30T00:00:00"), UNKNOWN_DELETION_DATE);
    assert_eq!(extract_deletion_date("DeletionDate=2024-03-05 17:08:09"), UNKNOWN_DELETION_DATE);
    assert_eq!(extract_deletion_date("DeletionDate="), UNKNOWN_DELETION_DATE);
}

#[test]
fn absent_deletion_date_gives_the_placeholder() {
    assert_eq!(extract_deletion_date("Path=a\n"), UNKNOWN_DELETION_DATE);
    assert_eq!(extract_deletion_date(""), UNKNOWN_DELETION_DATE);
}

#[test]
fn first_deletion_date_line_wins() {
    assert_eq!(extract_deletion_date("DeletionDate=bad\nDeletionDate=2024-03-05T17:08:09"), UNKNOWN_DELETION_DATE);
    assert_eq!(
        extract_deletion_date("DeletionDate=2024-03-05T17:08:09\nDeletionDate=bad"),
        "2024-03-05 17:08:09"
    );
}

#[test]
fn deletion_date_as_a_timestamp() {
    let expected = Timestamp { year: 2024, month: 3, day: 5, hour: 17, minute: 8, second: 9, nanosecond: 0 };
    assert_eq!(deletion_date(RECORD), Some(expected));
    assert_eq!(deletion_date("DeletionDate=nope"), None);
    assert_eq!(deletion_date("Path=x"), None);
    assert_eq!(show_deletion_date(&Some(expected)), "2024-03-05 17:08:09");
    assert_eq!(show_deletion_date(&None), UNKNOWN_DELETION_DATE);
    let invalid = Timestamp { month: 13, ..expected };
    assert_eq!(show_deletion_date(&Some(invalid)), UNKNOWN_DELETION_DATE);
    assert_eq!(date_or_unknown(Some("x".to_string())), "x");
    assert_eq!(date_or_unknown(None), UNKNOWN_DELETION_DATE);
}

#[test]
fn payload_goes_by_the_name() {
    assert_eq!(backup_copy_path("/t/Trash/info/x.trashinfo"), "/t/Trash/files/x");
    assert_eq!(backup_copy_path("/t/Trash/info/a.b.txt.trashinfo"), "/t/Trash/files/a.b.txt");
    assert_eq!(backup_copy_path("/info/x.trashinfo"), "/files/x");
    assert_eq!(backup_copy_path("info/x.trashinfo"), "files/x");
    assert_eq!(backup_copy_path("x.trashinfo"), "files/x");
    assert_eq!(backup_copy_path("/t/Trash/info/plain"), "/t/Trash/files/plain");
}

#[test]
fn suffix_is_stripped_once() {
    assert_eq!(backup_copy_path("/t/info/x.trashinfo.trashinfo"), "/t/files/x.trashinfo");
    assert_eq!(backup_copy_path("/t/info/.trashinfo"), "/t/files/");
}

#[test]
fn record_names_end_with_the_suffix() {
    assert!(has_record_name("/t/info/x.trashinfo"));
    assert!(has_record_name("x.trashinfo"));
    assert!(has_record_name("/t/info/.trashinfo"));
    assert!(!has_record_name("/t/info/x.trashinfo.bak"));
    assert!(!has_record_name("/t/info/x.TRASHINFO"));
    assert!(!has_record_name("/t/x.trashinfo/y"));
    assert!(!has_record_name(""));
}

#[test]
fn reading_a_record() {
    match read_record("/t/info/a.trashinfo", Ok(RECORD.to_string())) {
        ScanOutcome::Record(r) => {
            assert_eq!(r.info_path, "/t/info/a.trashinfo");
            assert_eq!(r.location, "/home/u/my file.txt");
            assert_eq!(r.deletion_date.map(|t| (t.year, t.month, t.day)), Some((2024, 3, 5)));
        }
        other => panic!("{:?}", other),
    }
    match read_record("/t/info/b.trashinfo", Ok("Path=rel\nDeletionDate=bad".to_string())) {
        ScanOutcome::Record(r) => {
            assert_eq!(r.location, "rel");
            assert_eq!(r.deletion_date, None);
        }
        other => panic!("{:?}", other),
    }
    match read_record("/t/info/c.trashinfo", Ok("nothing".to_string())) {
        ScanOutcome::ParseFailure(p, why) => {
            assert_eq!(p, "/t/info/c.trashinfo");
            assert_eq!(why, ParseError::MissingPath);
        }
        other => panic!("{:?}", other),
    }
    let failure = CoreError::io("/t/info/d.trashinfo", std::io::Error::from(std::io::ErrorKind::PermissionDenied));
    match read_record("/t/info/d.trashinfo", Err(failure)) {
        ScanOutcome::Unreadable(p, CoreError::Io(at, _)) => {
            assert_eq!(p, "/t/info/d.trashinfo");
            assert_eq!(at, "/t/info/d.trashinfo");
        }
        other => panic!("{:?}", other),
    }
}

#[test]
fn record_and_payload_correspond() {
    for root in ["", "/", "/t", "/home/u/.local/share/Trash", "rel/trash", ".", "/mnt/my disk/.Trash-1000"] {
        for name in ["a", "a.txt", "", ".hidden", "x.trashinfo", "with space"] {
            let record = join_path(&join_path(root, "info"), &format!("{}.trashinfo", name));
            let payload = join_path(&join_path(root, "files"), name);
            assert!(has_record_name(&record), "{:?}", record);
            assert_eq!(backup_copy_path(&record), payload, "{:?}", record);
        }
    }
}
