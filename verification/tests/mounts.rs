use trash_core::mounts::{contains_text, dedup_mount_points, parse_mount_table, unescape_mountpoint, volumes_from_override};

fn owned(items: &[&str]) -> Vec<String> {
    items.iter().map(|s| s.to_string()).collect()
}

#[test]
fn unescape_known_sequences() {
    assert_eq!(unescape_mountpoint("a\\040b"), "a b");
    assert_eq!(unescape_mountpoint("a\\011b"), "a\tb");
    assert_eq!(unescape_mountpoint("a\\012b"), "a\nb");
    assert_eq!(unescape_mountpoint("a\\\\b"), "a\\b");
    assert_eq!(unescape_mountpoint("/mnt/my\\040usb\\040stick"), "/mnt/my usb stick");
}

#[test]
fn unescape_leaves_text_without_backslash() {
    for s in ["", "/", "/mnt/usb", "/mnt/with space", "040", "/home/é"] {
        assert_eq!(unescape_mountpoint(s), s);
        assert_eq!(unescape_mountpoint(&unescape_mountpoint(s)), s);
    }
}

#[test]
fn unescape_leaves_unknown_escapes() {
    assert_eq!(unescape_mountpoint("a\\134b"), "a\\134b");
    assert_eq!(unescape_mountpoint("a\\04"), "a\\04");
    assert_eq!(unescape_mountpoint("a\\xb"), "a\\xb");
    assert_eq!(unescape_mountpoint("a\\"), "a\\");
}

#[test]
fn unescape_takes_octal_escapes_before_backslashes() {
    // The escapes are undone one kind after the other, the doubled backslash last.
    assert_eq!(unescape_mountpoint("\\\\040"), "\\ ");
    assert_eq!(unescape_mountpoint("\\\\\\\\"), "\\\\");
    assert_eq!(unescape_mountpoint("\\\\\\"), "\\\\");
}

#[test]
fn mount_table_gives_second_fields() {
    let table = "/dev/sda1 / ext4 rw 0 0\nproc /proc proc rw 0 0\n/dev/sdb1 /mnt/my\\040usb vfat rw 0 0\n";
    assert_eq!(parse_mount_table(table), owned(&["/", "/proc", "/mnt/my usb"]));
}

#[test]
fn mount_table_skips_short_lines_and_keeps_duplicates() {
    let table = "onlyone\n\n  \n/dev/a /x\n/dev/b\t/x\textra\r\n/dev/c /y";
    assert_eq!(parse_mount_table(table), owned(&["/x", "/x", "/y"]));
    assert!(parse_mount_table("").is_empty());
}

#[test]
fn dedup_keeps_first_occurrences() {
    let points = owned(&["/", "/a", "/", "/b", "/a", "/c"]);
    assert_eq!(dedup_mount_points(&points), owned(&["/", "/a", "/b", "/c"]));
    assert!(dedup_mount_points(&Vec::new()).is_empty());
    assert!(contains_text(&points, &"/b".to_string()));
    assert!(!contains_text(&points, &"/d".to_string()));
}

#[test]
fn override_pins_the_volume_set() {
    assert_eq!(volumes_from_override(Some("/mnt/a:/mnt/b")), Some(owned(&["/mnt/a", "/mnt/b"])));
    assert_eq!(volumes_from_override(Some("/mnt/a")), Some(owned(&["/mnt/a"])));
    assert_eq!(volumes_from_override(Some(":/mnt/a::/mnt/b:")), Some(owned(&["/mnt/a", "/mnt/b"])));
}

#[test]
fn override_of_separators_only_pins_the_empty_set() {
    assert_eq!(volumes_from_override(Some(":")), Some(Vec::new()));
    assert_eq!(volumes_from_override(Some(":::")), Some(Vec::new()));
}

#[test]
fn absent_or_empty_override_pins_nothing() {
    assert_eq!(volumes_from_override(None), None);
    assert_eq!(volumes_from_override(Some("")), None);
}
