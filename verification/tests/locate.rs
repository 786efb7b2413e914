use trash_core::fs::FileMetadata;
use trash_core::locate::{alt_trash_dir, is_dir, is_sticky_dir, is_symlink, scan_top_trash_dir, top_trash_dir, validate_top_trash_dir, Event, ScanEvent, TopDirFacts, VolumeFacts};

fn dir(mode: u32) -> Option<FileMetadata> {
    Some(FileMetadata { is_dir: true, is_file: false, is_symlink: false, mode, len: 4096 })
}

fn file(mode: u32) -> Option<FileMetadata> {
    Some(FileMetadata { is_dir: false, is_file: true, is_symlink: false, mode, len: 10 })
}

fn link() -> Option<FileMetadata> {
    Some(FileMetadata { is_dir: false, is_file: false, is_symlink: true, mode: 0o777, len: 7 })
}

fn good() -> TopDirFacts {
    TopDirFacts { present: true, parent: dir(0o41777), parent_link: dir(0o41777) }
}

#[test]
fn candidates_of_a_volume() {
    assert_eq!(top_trash_dir("/mnt/usb", "1000"), "/mnt/usb/.Trash/1000");
    assert_eq!(alt_trash_dir("/mnt/usb", "1000"), "/mnt/usb/.Trash-1000");
    assert_eq!(top_trash_dir("/", "0"), "/.Trash/0");
    assert_eq!(alt_trash_dir("/", "0"), "/.Trash-0");
    assert_eq!(top_trash_dir("/mnt/usb/", "1000"), "/mnt/usb/.Trash/1000");
}

#[test]
fn sticky_bit_is_read_from_the_mode() {
    assert!(is_sticky_dir(&dir(0o1000)));
    assert!(is_sticky_dir(&dir(0o41777)));
    assert!(!is_sticky_dir(&dir(0o40777)));
    assert!(!is_sticky_dir(&dir(0o0777)));
    assert!(!is_sticky_dir(&file(0o1777)));
    assert!(!is_sticky_dir(&None));
    assert!(is_symlink(&link()));
    assert!(!is_symlink(&dir(0o1777)));
    assert!(!is_symlink(&None));
    assert!(is_dir(&dir(0)));
    assert!(!is_dir(&file(0)));
    assert!(!is_dir(&None));
}

#[test]
fn good_candidate_is_found() {
    match validate_top_trash_dir("/mnt/usb/.Trash/1000", &good()) {
        ScanEvent::Found(d) => {
            assert_eq!(d.path, "/mnt/usb/.Trash/1000");
            assert_eq!(d.volume, "");
        }
        other => panic!("{:?}", other),
    }
}

#[test]
fn parent_without_sticky_bit_is_never_found() {
    for mode in [0u32, 0o777, 0o40777, 0o40755, 0o6777, 0xFFFF_FDFF] {
        let facts = TopDirFacts { parent: dir(mode), ..good() };
        match validate_top_trash_dir("/mnt/usb/.Trash/1000", &facts) {
            ScanEvent::SkippedNotSticky(p) => assert_eq!(p, "/mnt/usb/.Trash/1000"),
            other => panic!("{:?}", other),
        }
        let flipped = TopDirFacts { parent: dir(mode | 0o1000), ..good() };
        assert!(matches!(validate_top_trash_dir("/mnt/usb/.Trash/1000", &flipped), ScanEvent::Found(_)));
    }
}

#[test]
fn parent_that_is_no_directory_is_not_sticky() {
    let facts = TopDirFacts { parent: file(0o1777), ..good() };
    assert!(matches!(validate_top_trash_dir("/v/.Trash/1", &facts), ScanEvent::SkippedNotSticky(_)));
    let unreadable = TopDirFacts { parent: None, ..good() };
    assert!(matches!(validate_top_trash_dir("/v/.Trash/1", &unreadable), ScanEvent::SkippedNotSticky(_)));
}

#[test]
fn symlinked_parent_is_rejected_whatever_the_sticky_bit() {
    let sticky = TopDirFacts { present: true, parent: dir(0o41777), parent_link: link() };
    match validate_top_trash_dir("/mnt/usb/.Trash/1000", &sticky) {
        ScanEvent::SkippedSymlink(p) => assert_eq!(p, "/mnt/usb/.Trash/1000"),
        other => panic!("{:?}", other),
    }
    let plain = TopDirFacts { present: true, parent: dir(0o40777), parent_link: link() };
    assert!(!matches!(validate_top_trash_dir("/mnt/usb/.Trash/1000", &plain), ScanEvent::Found(_)));
}

#[test]
fn missing_candidate_is_skipped_silently() {
    let facts = TopDirFacts { present: false, ..good() };
    assert!(matches!(validate_top_trash_dir("/mnt/usb/.Trash/1000", &facts), ScanEvent::SkippedMissing));
    assert!(matches!(validate_top_trash_dir("/", &good()), ScanEvent::SkippedMissing));
}

fn kinds(events: &Vec<Event>) -> Vec<String> {
    events
        .iter()
        .map(|e| match e {
            Event::Found(d) => format!("found {} in {}", d.path, d.volume),
            Event::SkipNotSticky(p) => format!("not sticky {}", p),
            Event::SkipSymlink(p) => format!("symlink {}", p),
        })
        .collect()
}

#[test]
fn volume_with_both_trash_directories() {
    let mut out = Vec::new();
    let facts = VolumeFacts { top: good(), alt: dir(0o40700) };
    scan_top_trash_dir("/mnt/usb", "1000", &facts, &mut out);
    assert_eq!(
        kinds(&out),
        vec!["found /mnt/usb/.Trash/1000 in /mnt/usb", "found /mnt/usb/.Trash-1000 in /mnt/usb"]
    );
}

#[test]
fn volume_events_are_added_behind_earlier_ones() {
    let mut out = Vec::new();
    let skipped = VolumeFacts { top: TopDirFacts { parent: dir(0o40777), ..good() }, alt: None };
    scan_top_trash_dir("/a", "7", &skipped, &mut out);
    let linked = VolumeFacts { top: TopDirFacts { parent_link: link(), ..good() }, alt: dir(0) };
    scan_top_trash_dir("/b", "7", &linked, &mut out);
    let nothing = VolumeFacts { top: TopDirFacts { present: false, ..good() }, alt: file(0) };
    scan_top_trash_dir("/c", "7", &nothing, &mut out);
    assert_eq!(
        kinds(&out),
        vec!["not sticky /a/.Trash/7", "symlink /b/.Trash/7", "found /b/.Trash-7 in /b"]
    );
}
