use trash_core::compose::{compose_original_location, join_volume_and_path};

#[test]
fn compose_on_root_volume() {
    assert_eq!(compose_original_location("/", "foo/bar"), "/foo/bar");
    assert_eq!(join_volume_and_path("/", "foo/bar"), "/foo/bar");
}

#[test]
fn compose_on_a_volume() {
    assert_eq!(compose_original_location("/mnt/usb", "foo"), "/mnt/usb/foo");
    assert_eq!(join_volume_and_path("/mnt/usb", "foo"), "/mnt/usb/foo");
}

#[test]
fn compose_keeps_an_absolute_location() {
    for volume in ["", "/", "/mnt/usb", "/mnt/usb/", "anything", "//"] {
        assert_eq!(compose_original_location(volume, "/abs/path"), "/abs/path");
        assert_eq!(join_volume_and_path(volume, "/abs/path"), "/abs/path");
    }
}

#[test]
fn compose_with_one_trailing_separator() {
    assert_eq!(compose_original_location("/mnt/usb/", "foo"), "/mnt/usb/foo");
    assert_eq!(join_volume_and_path("/mnt/usb/", "foo"), "/mnt/usb/foo");
}

#[test]
fn compose_with_an_empty_volume() {
    assert_eq!(compose_original_location("", "foo"), "/foo");
    assert_eq!(join_volume_and_path("", "foo"), "/foo");
}

#[test]
fn compositions_differ_on_doubled_trailing_separators() {
    assert_eq!(compose_original_location("/mnt/usb//", "foo"), "/mnt/usb/foo");
    assert_eq!(join_volume_and_path("/mnt/usb//", "foo"), "/mnt/usb//foo");
    assert_eq!(compose_original_location("//", "foo"), "/foo");
    assert_eq!(join_volume_and_path("//", "foo"), "//foo");
}

#[test]
fn compose_an_empty_location() {
    assert_eq!(compose_original_location("/mnt/usb", ""), "/mnt/usb/");
    assert_eq!(join_volume_and_path("/mnt/usb", ""), "/mnt/usb/");
}
