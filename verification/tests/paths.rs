use std::path::Path;
use trash_core::paths::{file_name, join_path, parent};

const PATHS: [&str; 40] = [
    "",
    "/",
    "//",
    "///",
    ".",
    "..",
    "./",
    "./.",
    "/.",
    "/..",
    "a",
    "a/",
    "a//",
    "a/.",
    "a/./",
    "a/..",
    "a/b",
    "a//b",
    "a/b/",
    "a/./b",
    "./a",
    "././a",
    "../a",
    "/a",
    "//a",
    "/a/",
    "/a/b",
    "/a/b/",
    "/a/b//",
    "/a/./b",
    "/./a",
    "/a/.",
    "/a/..",
    "/a/b/..",
    "...",
    ".a",
    "a.",
    "/home/u/.local/share/Trash/info/x.trashinfo",
    "/mnt/usb/.Trash/1000",
    ".Trash/",
];

#[test]
fn file_name_is_that_of_path() {
    for p in PATHS {
        let expected = Path::new(p).file_name().map(|n| n.to_str().unwrap().to_string());
        assert_eq!(file_name(p), expected, "{:?}", p);
    }
    assert_eq!(file_name("/a/b.txt"), Some("b.txt".to_string()));
    assert_eq!(file_name("/a/b/"), Some("b".to_string()));
    assert_eq!(file_name("/"), None);
    assert_eq!(file_name("a/.."), None);
}

#[test]
fn parent_is_that_of_path() {
    for p in PATHS {
        let expected = Path::new(p).parent().map(|n| n.to_str().unwrap().to_string());
        assert_eq!(parent(p), expected, "{:?}", p);
    }
    assert_eq!(parent("/a/b"), Some("/a".to_string()));
    assert_eq!(parent("/a"), Some("/".to_string()));
    assert_eq!(parent("a"), Some("".to_string()));
    assert_eq!(parent("/"), None);
    assert_eq!(parent(""), None);
}

#[test]
fn join_is_that_of_path() {
    let components = ["", "a", "a/b", "/a", ".Trash", "1000", "a/", ".", ".."];
    for base in PATHS {
        for c in components {
            let expected = Path::new(base).join(c).to_str().unwrap().to_string();
            assert_eq!(join_path(base, c), expected, "{:?} {:?}", base, c);
        }
    }
    assert_eq!(join_path("/mnt/usb", ".Trash"), "/mnt/usb/.Trash");
    assert_eq!(join_path("/", ".Trash"), "/.Trash");
    assert_eq!(join_path("", ".Trash"), ".Trash");
    assert_eq!(join_path("/mnt/usb", "/abs"), "/abs");
    assert_eq!(join_path("/mnt/usb/", "x"), "/mnt/usb/x");
}

#[test]
fn parent_is_shorter_than_the_path() {
    for p in PATHS {
        if let Some(dir) = parent(p) {
            assert!(dir.chars().count() < p.chars().count(), "{:?}", p);
        }
    }
}
