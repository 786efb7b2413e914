use std::sync::Mutex;
use std::collections::BTreeMap;
use std::io::{Error, ErrorKind};
use trash_core::discover::{current_uid, home_trash_dirs_from_environ, list_mount_points, list_volumes, Environment, MountPolicy};
use trash_core::errors::CoreError;
use trash_core::fs::{canonical_or_relaxed, FileMetadata, FileSystem};
use trash_core::listing::{entry_line, extract_attribute, file_size, size_attribute, format_line, format_line2, list_events, list_outcomes, list_trash, list_trash_dirs, list_trash_for_dir, parse_error_line, size_from, skip_line, trash_dir_line, Attribute, Output};
use trash_core::locate::{probe_top_trash_dir, probe_volume, Event, TrashDir};
use trash_core::matcher::Matcher;
use trash_core::removal::{error_text, exit_code, is_there, list_trashinfo_matches, matched_item, note_failure, remove_matches, rm_file2, rm_file_if_exists, run_removal, select_records, settle_removal, MatchedItem, RemovalReport, EXIT_DONE, EXIT_FAILED, EXIT_NO_PATTERN, USAGE};
use trash_core::select::{collect_trash_dirs, scan_all_users_volumes, scan_trash_dirs_for_current_user, select_trash_dirs, Selection};
use trash_core::trashinfo::{read_record, scan_trash_dir, ParseError, ScanOutcome, TrashInfoRecord};
use trash_core::volumes::{list_users, parse_user_database, volume_of};

#[derive(Clone, Debug)]
enum Node {
    File(String),
    Dir(u32),
    Link(String),
    /// A file that cannot be read as text.
    Binary,
    /// A directory that refuses to be removed.
    Pinned,
}

/// A file system in memory.
struct MemFs {
    nodes: Mutex<BTreeMap<String, Node>>,
    reads: Mutex<Vec<String>>,
}

fn failure(path: &str, kind: ErrorKind) -> CoreError {
    CoreError::io(path, Error::from(kind))
}

impl MemFs {
    fn new() -> MemFs {
        let fs = MemFs { nodes: Mutex::new(BTreeMap::new()), reads: Mutex::new(Vec::new()) };
        fs.put("/", Node::Dir(0o40755));
        fs
    }

    fn put(&self, path: &str, node: Node) {
        self.nodes.lock().unwrap().insert(path.to_string(), node);
    }

    fn dir(&self, path: &str) {
        self.put(path, Node::Dir(0o40755));
    }

    fn file(&self, path: &str, content: &str) {
        self.put(path, Node::File(content.to_string()));
    }

    fn has(&self, path: &str) -> bool {
        self.nodes.lock().unwrap().contains_key(path)
    }

    fn paths(&self) -> Vec<String> {
        self.nodes.lock().unwrap().keys().cloned().collect()
    }

    fn resolve(&self, path: &str) -> Option<Node> {
        let mut at = path.to_string();
        for _ in 0..8 {
            match self.nodes.lock().unwrap().get(&at).cloned() {
                Some(Node::Link(target)) => at = target,
                other => return other,
            }
        }
        None
    }

    fn describe(node: &Node) -> FileMetadata {
        match node {
            Node::File(content) => FileMetadata {
                is_dir: false,
                is_file: true,
                is_symlink: false,
                mode: 0o100644,
                len: content.len() as u64,
            },
            Node::Binary => FileMetadata { is_dir: false, is_file: true, is_symlink: false, mode: 0o100644, len: 2 },
            Node::Dir(mode) => FileMetadata { is_dir: true, is_file: false, is_symlink: false, mode: *mode, len: 4096 },
            Node::Pinned => FileMetadata { is_dir: true, is_file: false, is_symlink: false, mode: 0o40555, len: 4096 },
            Node::Link(target) => FileMetadata {
                is_dir: false,
                is_file: false,
                is_symlink: true,
                mode: 0o120777,
                len: target.len() as u64,
            },
        }
    }
}

impl FileSystem for MemFs {
    fn now(&self) -> u64 {
        0
    }

    fn path_exists(&self, path: &str) -> bool {
        self.resolve(path).is_some()
    }

    fn metadata(&self, path: &str) -> Result<FileMetadata, CoreError> {
        match self.resolve(path) {
            Some(node) => Ok(MemFs::describe(&node)),
            None => Err(failure(path, ErrorKind::NotFound)),
        }
    }

    fn symlink_metadata(&self, path: &str) -> Result<FileMetadata, CoreError> {
        match self.nodes.lock().unwrap().get(path) {
            Some(node) => Ok(MemFs::describe(node)),
            None => Err(failure(path, ErrorKind::NotFound)),
        }
    }

    fn create_dir_all(&self, path: &str) -> Result<(), CoreError> {
        self.dir(path);
        Ok(())
    }

    fn create_dir(&self, path: &str) -> Result<(), CoreError> {
        if self.has(path) {
            return Err(failure(path, ErrorKind::AlreadyExists));
        }
        self.dir(path);
        Ok(())
    }

    fn write(&self, path: &str, data: &[u8]) -> Result<(), CoreError> {
        self.file(path, &String::from_utf8_lossy(data));
        Ok(())
    }

    fn write_to_string(&self, path: &str, content: &str) -> Result<(), CoreError> {
        self.file(path, content);
        Ok(())
    }

    fn read_to_string(&self, path: &str) -> Result<String, CoreError> {
        self.reads.lock().unwrap().push(path.to_string());
        match self.resolve(path) {
            Some(Node::File(content)) => Ok(content),
            Some(Node::Binary) => Err(failure(path, ErrorKind::InvalidData)),
            Some(_) => Err(failure(path, ErrorKind::Other)),
            None => Err(failure(path, ErrorKind::NotFound)),
        }
    }

    fn remove_file(&self, path: &str) -> Result<(), CoreError> {
        let node = self.nodes.lock().unwrap().get(path).cloned();
        match node {
            Some(Node::Dir(_)) | Some(Node::Pinned) => Err(failure(path, ErrorKind::PermissionDenied)),
            Some(_) => {
                self.nodes.lock().unwrap().remove(path);
                Ok(())
            }
            None => Err(failure(path, ErrorKind::NotFound)),
        }
    }

    fn rename(&self, from: &str, to: &str) -> Result<(), CoreError> {
        let moved = self.nodes.lock().unwrap().remove(from);
        match moved {
            Some(node) => {
                self.put(to, node);
                Ok(())
            }
            None => Err(failure(from, ErrorKind::NotFound)),
        }
    }

    fn list_dir(&self, path: &str) -> Result<Vec<String>, CoreError> {
        match self.resolve(path) {
            Some(Node::Dir(_)) | Some(Node::Pinned) => {}
            _ => return Err(failure(path, ErrorKind::NotFound)),
        }
        let prefix = if path.ends_with('/') { path.to_string() } else { format!("{}/", path) };
        Ok(self
            .paths()
            .into_iter()
            .filter(|p| p.len() > prefix.len() && p.starts_with(&prefix) && !p[prefix.len()..].contains('/'))
            .collect())
    }

    fn remove_dir(&self, path: &str) -> Result<(), CoreError> {
        if !self.list_dir(path)?.is_empty() {
            return Err(failure(path, ErrorKind::Other));
        }
        self.nodes.lock().unwrap().remove(path);
        Ok(())
    }

    fn remove_dir_all(&self, path: &str) -> Result<(), CoreError> {
        let node = self.nodes.lock().unwrap().get(path).cloned();
        match node {
            Some(Node::Dir(_)) => {
                let prefix = format!("{}/", path);
                self.nodes.lock().unwrap().retain(|p, _| p != path && !p.starts_with(&prefix));
                Ok(())
            }
            Some(_) => Err(failure(path, ErrorKind::Other)),
            None => Err(failure(path, ErrorKind::NotFound)),
        }
    }

    fn canonicalize(&self, path: &str) -> Result<String, CoreError> {
        let mut at = path.to_string();
        for _ in 0..8 {
            match self.nodes.lock().unwrap().get(&at).cloned() {
                Some(Node::Link(target)) => at = target,
                Some(_) => return Ok(at),
                None => return Err(failure(path, ErrorKind::NotFound)),
            }
        }
        Err(failure(path, ErrorKind::Other))
    }
}

struct Wildcards;

fn wild(pattern: &[char], subject: &[char]) -> bool {
    match pattern.first() {
        None => subject.is_empty(),
        Some('*') => (0..=subject.len()).any(|k| wild(&pattern[1..], &subject[k..])),
        Some('?') => !subject.is_empty() && wild(&pattern[1..], &subject[1..]),
        Some(c) => subject.first() == Some(c) && wild(&pattern[1..], &subject[1..]),
    }
}

impl Matcher for Wildcards {
    fn matches(&self, pattern: &str, subject: &str) -> bool {
        let p: Vec<char> = pattern.chars().collect();
        let s: Vec<char> = subject.chars().collect();
        wild(&p, &s)
    }
}

fn owned(items: &[&str]) -> Vec<String> {
    items.iter().map(|s| s.to_string()).collect()
}

fn environ(xdg: Option<&str>, home: Option<&str>, volumes: Option<&str>, uid: Option<&str>) -> Environment {
    Environment {
        xdg_data_home: xdg.map(|s| s.to_string()),
        home: home.map(|s| s.to_string()),
        trash_volumes: volumes.map(|s| s.to_string()),
        uid: uid.map(|s| s.to_string()),
    }
}

const AS_LISTED: MountPolicy = MountPolicy { dedup: false, only_existing: false };
const DISTINCT: MountPolicy = MountPolicy { dedup: true, only_existing: false };
const EXISTING: MountPolicy = MountPolicy { dedup: false, only_existing: true };

fn shown(events: &Vec<Event>) -> Vec<String> {
    events
        .iter()
        .map(|e| match e {
            Event::Found(d) => format!("found {} in {}", d.path, d.volume),
            Event::SkipNotSticky(p) => format!("not sticky {}", p),
            Event::SkipSymlink(p) => format!("symlink {}", p),
        })
        .collect()
}

fn printed(report: &Vec<Output>) -> Vec<String> {
    report
        .iter()
        .map(|o| match o {
            Output::Stdout(line) => format!("out: {}", line),
            Output::Stderr(line) => format!("err: {}", line),
        })
        .collect()
}

fn pairs(dirs: &Vec<TrashDir>) -> Vec<(String, String)> {
    dirs.iter().map(|d| (d.path.clone(), d.volume.clone())).collect()
}

const MOUNTS: &str = "/dev/a / ext4 rw 0 0\n/dev/b /mnt/usb vfat rw 0 0\n/dev/c /mnt/gone vfat rw 0 0\n/dev/b /mnt/usb vfat ro 0 0\n";

/// A tree with three volumes: one whose shared trash passes every check, one
/// whose shared trash lacks the sticky bit, one whose shared trash is a link.
fn volumes_tree() -> MemFs {
    let fs = MemFs::new();
    for volume in ["/mnt/good", "/mnt/loose", "/mnt/linked", "/mnt/bare"] {
        fs.dir(volume);
    }
    fs.put("/mnt/good/.Trash", Node::Dir(0o41777));
    fs.dir("/mnt/good/.Trash/1000");
    fs.dir("/mnt/good/.Trash-1000");
    fs.put("/mnt/loose/.Trash", Node::Dir(0o40777));
    fs.dir("/mnt/loose/.Trash/1000");
    fs.put("/mnt/elsewhere", Node::Dir(0o41777));
    fs.dir("/mnt/elsewhere/1000");
    fs.put("/mnt/linked/.Trash", Node::Link("/mnt/elsewhere".to_string()));
    fs.put("/mnt/linked/.Trash/1000", Node::Link("/mnt/elsewhere/1000".to_string()));
    fs.file("/mnt/bare/.Trash-1000", "a file, no directory");
    fs
}

const ALL_VOLUMES: &str = "/mnt/good:/mnt/loose:/mnt/linked:/mnt/bare";

#[test]
fn mount_points_in_table_order() {
    let fs = MemFs::new();
    fs.file("/proc/self/mounts", MOUNTS);
    assert_eq!(list_mount_points(&fs, AS_LISTED), owned(&["/", "/mnt/usb", "/mnt/gone", "/mnt/usb"]));
}

#[test]
fn mount_points_once_each() {
    let fs = MemFs::new();
    fs.file("/proc/self/mounts", MOUNTS);
    assert_eq!(list_mount_points(&fs, DISTINCT), owned(&["/", "/mnt/usb", "/mnt/gone"]));
}

#[test]
fn mount_points_that_exist() {
    let fs = MemFs::new();
    fs.file("/proc/self/mounts", MOUNTS);
    fs.dir("/mnt/usb");
    assert_eq!(list_mount_points(&fs, EXISTING), owned(&["/", "/mnt/usb", "/mnt/usb"]));
    let both = MountPolicy { dedup: true, only_existing: true };
    assert_eq!(list_mount_points(&fs, both), owned(&["/", "/mnt/usb"]));
}

#[test]
fn unreadable_mount_table_gives_no_mount_point() {
    let fs = MemFs::new();
    assert!(list_mount_points(&fs, AS_LISTED).is_empty());
    assert!(list_mount_points(&fs, EXISTING).is_empty());
}

#[test]
fn override_keeps_the_mount_table_closed() {
    let fs = MemFs::new();
    fs.file("/proc/self/mounts", MOUNTS);
    let env = environ(None, None, Some("/a::/b"), None);
    assert_eq!(list_volumes(&fs, &env, DISTINCT), owned(&["/a", "/b"]));
    let none = environ(None, None, Some(":"), None);
    assert!(list_volumes(&fs, &none, DISTINCT).is_empty());
    assert!(fs.reads.lock().unwrap().is_empty());
}

#[test]
fn without_override_the_mount_table_is_asked() {
    let fs = MemFs::new();
    fs.file("/proc/self/mounts", MOUNTS);
    assert_eq!(list_volumes(&fs, &environ(None, None, None, None), DISTINCT), owned(&["/", "/mnt/usb", "/mnt/gone"]));
    assert_eq!(list_volumes(&fs, &environ(None, None, Some(""), None), DISTINCT), owned(&["/", "/mnt/usb", "/mnt/gone"]));
    assert_eq!(fs.reads.lock().unwrap().len(), 2);
}

#[test]
fn home_trash_from_the_environment() {
    assert_eq!(home_trash_dirs_from_environ(&environ(Some("/x"), Some("/home/u"), None, None)), owned(&["/x/Trash"]));
    assert_eq!(
        home_trash_dirs_from_environ(&environ(None, Some("/home/u"), None, None)),
        owned(&["/home/u/.local/share/Trash"])
    );
    assert!(home_trash_dirs_from_environ(&environ(None, None, None, None)).is_empty());
    assert_eq!(home_trash_dirs_from_environ(&environ(Some(""), Some("/home/u"), None, None)), owned(&["/Trash"]));
}

#[test]
fn user_id_from_the_environment() {
    assert_eq!(current_uid(&environ(None, None, None, Some("1000"))), "1000");
    assert_eq!(current_uid(&environ(None, None, None, Some(""))), "0");
    assert_eq!(current_uid(&environ(None, None, None, None)), "0");
}

#[test]
fn volume_is_the_nearest_mount_point() {
    let mounts = owned(&["/", "/mnt/usb", "/mnt/usb/inner"]);
    assert_eq!(volume_of("/mnt/usb/a/b", &mounts, None), "/mnt/usb");
    assert_eq!(volume_of("/mnt/usb/inner/a", &mounts, None), "/mnt/usb/inner");
    assert_eq!(volume_of("/mnt/usb", &mounts, None), "/mnt/usb");
    assert_eq!(volume_of("/home/u/.local/share/Trash", &mounts, None), "/");
    assert_eq!(volume_of("/", &mounts, None), "/");
}

#[test]
fn volume_of_a_relative_path() {
    let mounts = owned(&["/", "/mnt/usb"]);
    assert_eq!(volume_of("a/b", &mounts, Some("/mnt/usb/work")), "/mnt/usb");
    assert_eq!(volume_of("a/b", &mounts, Some("/home/u")), "/");
    assert_eq!(volume_of("a/b", &mounts, None), "");
}

#[test]
fn volume_without_a_mount_point_is_the_last_ancestor() {
    assert_eq!(volume_of("/a/b", &Vec::new(), None), "/");
    assert_eq!(volume_of("a/b", &Vec::new(), None), "");
    assert_eq!(volume_of("", &Vec::new(), None), "");
}

#[test]
fn accounts_of_the_user_database() {
    let db = "root:x:0:0:root:/root:/bin/bash\n# comment\nshort:x:1:1\nu:x:1000:1000:User,,,:/home/u:/bin/sh\nwide:x:7:7:g:/srv/wide:/bin/false:extra\n";
    let accounts = parse_user_database(db);
    let got: Vec<(String, String)> = accounts.iter().map(|a| (a.uid.clone(), a.home.clone())).collect();
    assert_eq!(
        got,
        vec![
            ("0".to_string(), "/root".to_string()),
            ("1000".to_string(), "/home/u".to_string()),
            ("7".to_string(), "/srv/wide".to_string()),
        ]
    );
    let fs = MemFs::new();
    assert!(list_users(&fs).is_empty());
    fs.file("/etc/passwd", db);
    assert_eq!(list_users(&fs).len(), 3);
}

#[test]
fn probing_a_candidate() {
    let fs = volumes_tree();
    let good = probe_top_trash_dir(&fs, "/mnt/good/.Trash/1000");
    assert!(good.present);
    assert_eq!(good.parent.map(|m| (m.is_dir, m.mode)), Some((true, 0o41777)));
    assert_eq!(good.parent_link.map(|m| m.is_symlink), Some(false));
    let linked = probe_top_trash_dir(&fs, "/mnt/linked/.Trash/1000");
    assert!(linked.present);
    assert_eq!(linked.parent.map(|m| m.is_dir), Some(true));
    assert_eq!(linked.parent_link.map(|m| m.is_symlink), Some(true));
    let bare = probe_volume(&fs, "/mnt/bare", "1000");
    assert!(!bare.top.present);
    assert_eq!(bare.top.parent, None);
    assert_eq!(bare.alt.map(|m| m.is_dir), Some(false));
}

#[test]
fn discovery_for_the_current_user() {
    let fs = volumes_tree();
    let env = environ(None, Some("/home/u"), Some(ALL_VOLUMES), Some("1000"));
    let mounts = owned(&["/", "/mnt/good"]);
    let selection = Selection { all_users: false, trash_dirs: Vec::new() };
    let events = select_trash_dirs(&fs, &selection, &env, &mounts, None, DISTINCT);
    assert_eq!(
        shown(&events),
        vec![
            "found /home/u/.local/share/Trash in /",
            "found /mnt/good/.Trash/1000 in /mnt/good",
            "found /mnt/good/.Trash-1000 in /mnt/good",
            "not sticky /mnt/loose/.Trash/1000",
            "symlink /mnt/linked/.Trash/1000",
        ]
    );
    let volumes = owned(&["/mnt/loose"]);
    let direct = scan_trash_dirs_for_current_user(&fs, &env, &volumes, &mounts, None);
    assert_eq!(shown(&direct), vec!["found /home/u/.local/share/Trash in /", "not sticky /mnt/loose/.Trash/1000"]);
}

#[test]
fn sticky_bit_makes_the_candidate_eligible() {
    let fs = volumes_tree();
    let env = environ(None, None, Some("/mnt/loose"), Some("1000"));
    let selection = Selection { all_users: false, trash_dirs: Vec::new() };
    let before = select_trash_dirs(&fs, &selection, &env, &Vec::new(), None, DISTINCT);
    assert_eq!(shown(&before), vec!["not sticky /mnt/loose/.Trash/1000"]);
    fs.put("/mnt/loose/.Trash", Node::Dir(0o41777));
    let after = select_trash_dirs(&fs, &selection, &env, &Vec::new(), None, DISTINCT);
    assert_eq!(shown(&after), vec!["found /mnt/loose/.Trash/1000 in /mnt/loose"]);
}

#[test]
fn named_trash_directories_are_taken_as_given() {
    let fs = MemFs::new();
    let env = environ(Some("/x"), Some("/home/u"), Some(ALL_VOLUMES), Some("1000"));
    let mounts = owned(&["/", "/mnt/usb"]);
    let selection = Selection { all_users: false, trash_dirs: owned(&["/mnt/usb/t1", "rel/t2"]) };
    let events = select_trash_dirs(&fs, &selection, &env, &mounts, Some("/mnt/usb/cwd"), DISTINCT);
    assert_eq!(shown(&events), vec!["found /mnt/usb/t1 in /mnt/usb", "found rel/t2 in /mnt/usb"]);
}

#[test]
fn discovery_for_all_users() {
    let fs = volumes_tree();
    fs.file("/etc/passwd", "root:x:0:0:root:/root:/bin/sh\nu:x:1000:1000::/home/u:/bin/sh\n");
    let env = environ(Some("/ignored"), None, Some("/mnt/good:/mnt/bare"), Some("1000"));
    let mounts = owned(&["/", "/home"]);
    let selection = Selection { all_users: true, trash_dirs: owned(&["/also/ignored"]) };
    let events = select_trash_dirs(&fs, &selection, &env, &mounts, None, DISTINCT);
    let expected = vec![
        "found /root/.local/share/Trash in /",
        "found /home/u/.local/share/Trash in /home",
        "found /mnt/good/.Trash/1000 in /mnt/good",
        "found /mnt/good/.Trash-1000 in /mnt/good",
    ];
    assert_eq!(shown(&events), expected);
    let volumes = owned(&["/mnt/good", "/mnt/bare"]);
    assert_eq!(shown(&scan_all_users_volumes(&fs, &volumes, &mounts, None)), expected);
}

#[test]
fn trash_directories_for_removal() {
    let fs = volumes_tree();
    let env = environ(None, Some("/home/u"), Some(ALL_VOLUMES), None);
    let dirs = collect_trash_dirs(&fs, &env, 1000, EXISTING);
    assert_eq!(
        pairs(&dirs),
        vec![
            ("/home/u/.local/share/Trash".to_string(), "/".to_string()),
            ("/mnt/good/.Trash/1000".to_string(), "/mnt/good".to_string()),
            ("/mnt/good/.Trash-1000".to_string(), "/mnt/good".to_string()),
        ]
    );
    let other = collect_trash_dirs(&fs, &environ(Some("/x"), Some("/home/u"), Some(ALL_VOLUMES), None), 7, EXISTING);
    assert_eq!(pairs(&other), vec![("/x/Trash".to_string(), "/".to_string())]);
}

#[test]
fn removal_reads_the_mount_table_without_override() {
    let fs = volumes_tree();
    fs.file("/proc/self/mounts", "/dev/a /mnt/good x\n/dev/b /mnt/none x\n/dev/c /mnt/my\\040disk x\n");
    fs.dir("/mnt/my disk");
    fs.dir("/mnt/my disk/.Trash-1000");
    let dirs = collect_trash_dirs(&fs, &environ(None, None, None, None), 1000, EXISTING);
    assert_eq!(
        pairs(&dirs),
        vec![
            ("/mnt/good/.Trash/1000".to_string(), "/mnt/good".to_string()),
            ("/mnt/good/.Trash-1000".to_string(), "/mnt/good".to_string()),
            ("/mnt/my disk/.Trash-1000".to_string(), "/mnt/my disk".to_string()),
        ]
    );
}

/// A trash directory at `/t` with a few records.
fn trash_tree() -> MemFs {
    let fs = MemFs::new();
    fs.dir("/t");
    fs.dir("/t/info");
    fs.dir("/t/files");
    fs.file("/t/info/a.trashinfo", "[Trash Info]\nPath=/home/u/secret.txt\nDeletionDate=2024-03-05T17:08:09\n");
    fs.file("/t/files/a", "0123456789");
    fs.file("/t/info/b.trashinfo", "[Trash Info]\nPath=docs/plain.txt\nDeletionDate=not a date\n");
    fs.file("/t/files/b", "12345");
    fs
}

fn trash_dir(volume: &str) -> TrashDir {
    TrashDir { path: "/t".to_string(), volume: volume.to_string() }
}

#[test]
fn scan_reads_every_record() {
    let fs = trash_tree();
    fs.file("/t/info/notes.txt", "Path=/not/a/record");
    fs.file("/t/info/c.trashinfo", "no path here");
    fs.put("/t/info/d.trashinfo", Node::Binary);
    fs.file("/t/info/e.trashinfo", "Path=%FF");
    let outcomes = scan_trash_dir(&fs, "/t");
    let got: Vec<String> = outcomes
        .iter()
        .map(|o| match o {
            ScanOutcome::Record(r) => format!("record {} {}", r.info_path, r.location),
            ScanOutcome::ParseFailure(p, ParseError::MissingPath) => format!("no path {}", p),
            ScanOutcome::ParseFailure(p, ParseError::InvalidEncoding) => format!("bad path {}", p),
            ScanOutcome::Unreadable(p, _) => format!("unreadable {}", p),
        })
        .collect();
    assert_eq!(
        got,
        vec![
            "record /t/info/a.trashinfo /home/u/secret.txt",
            "record /t/info/b.trashinfo docs/plain.txt",
            "no path /t/info/c.trashinfo",
            "unreadable /t/info/d.trashinfo",
            "bad path /t/info/e.trashinfo",
        ]
    );
}

#[test]
fn scan_without_info_directory_finds_nothing() {
    let fs = MemFs::new();
    fs.dir("/t");
    assert!(scan_trash_dir(&fs, "/t").is_empty());
    assert!(scan_trash_dir(&fs, "/missing").is_empty());
}

#[test]
fn unparseable_date_does_not_stop_the_listing() {
    let fs = trash_tree();
    fs.file("/t/info/0.trashinfo", "Path=first\nDeletionDate=garbage\n");
    let listing = list_trash_for_dir(&fs, &trash_dir("/mnt/usb"), Attribute::DeletionDate, false);
    assert!(listing.failure.is_none());
    assert_eq!(
        printed(&listing.lines),
        vec![
            "out: ????-??-?? ??:??:?? /mnt/usb/first",
            "out: 2024-03-05 17:08:09 /home/u/secret.txt",
            "out: ????-??-?? ??:??:?? /mnt/usb/docs/plain.txt",
        ]
    );
}

#[test]
fn listing_reports_bad_records_and_goes_on() {
    let fs = trash_tree();
    fs.file("/t/info/0.trashinfo", "nothing");
    fs.put("/t/info/1.trashinfo", Node::Binary);
    let listing = list_trash_for_dir(&fs, &trash_dir("/"), Attribute::DeletionDate, false);
    assert!(listing.failure.is_none());
    let lines = printed(&listing.lines);
    assert_eq!(lines.len(), 4);
    assert_eq!(lines[0], "err: Parse Error: /t/info/0.trashinfo: Unable to parse Path.");
    assert!(lines[1].starts_with("err: "));
    assert_eq!(lines[2], "out: 2024-03-05 17:08:09 /home/u/secret.txt");
    assert_eq!(lines[3], "out: ????-??-?? ??:??:?? /docs/plain.txt");
}

#[test]
fn listing_with_sizes_and_files() {
    let fs = trash_tree();
    let listing = list_trash_for_dir(&fs, &trash_dir("/mnt/usb/"), Attribute::Size, true);
    assert!(listing.failure.is_none());
    assert_eq!(
        printed(&listing.lines),
        vec!["out: 10 /home/u/secret.txt -> /t/files/a", "out: 5 /mnt/usb/docs/plain.txt -> /t/files/b"]
    );
}

#[test]
fn size_of_a_dangling_link_is_zero() {
    let fs = trash_tree();
    fs.put("/t/files/a", Node::Link("/nowhere".to_string()));
    assert_eq!(file_size(&fs, "/t/files/a").ok(), Some(0));
    assert_eq!(file_size(&fs, "/t/files/b").ok(), Some(5));
    fs.put("/t/files/l", Node::Link("/t/files/b".to_string()));
    assert_eq!(file_size(&fs, "/t/files/l").ok(), Some(5));
    assert!(matches!(file_size(&fs, "/t/files/none"), Err(CoreError::Io(p, _)) if p == "/t/files/none"));
}

#[test]
fn missing_payload_ends_a_listing_of_sizes() {
    let fs = trash_tree();
    fs.file("/t/info/0.trashinfo", "Path=zero\n");
    fs.file("/t/files/0", "");
    fs.nodes.lock().unwrap().remove("/t/files/a");
    let listing = list_trash_for_dir(&fs, &trash_dir("/"), Attribute::Size, false);
    assert_eq!(printed(&listing.lines), vec!["out: 0 /zero"]);
    assert!(matches!(listing.failure, Some(CoreError::Io(p, _)) if p == "/t/files/a"));
    let dated = list_trash_for_dir(&fs, &trash_dir("/"), Attribute::DeletionDate, false);
    assert!(dated.failure.is_none());
    assert_eq!(dated.lines.len(), 3);
}

#[test]
fn attribute_of_a_record() {
    let fs = trash_tree();
    let contents = "Path=x\nDeletionDate=2024-03-05T17:08:09\n";
    assert_eq!(extract_attribute(&fs, "/t/info/a.trashinfo", contents, Attribute::DeletionDate).ok(), Some("2024-03-05 17:08:09".to_string()));
    assert_eq!(extract_attribute(&fs, "/t/info/a.trashinfo", contents, Attribute::Size).ok(), Some("10".to_string()));
    assert!(extract_attribute(&fs, "/t/info/z.trashinfo", contents, Attribute::Size).is_err());
    assert_eq!(
        extract_attribute(&fs, "/t/info/z.trashinfo", "Path=x", Attribute::DeletionDate).ok(),
        Some("????-??-?? ??:??:??".to_string())
    );
}

#[test]
fn lines_of_trash_directories() {
    let events = vec![
        Event::Found(TrashDir { path: "/a/.Trash/1".to_string(), volume: "/a".to_string() }),
        Event::SkipNotSticky("/b/.Trash/1".to_string()),
        Event::SkipSymlink("/c/.Trash/1".to_string()),
    ];
    assert_eq!(
        list_trash_dirs(&events),
        vec!["/a/.Trash/1", "parent_not_sticky: /b/.Trash/1", "parent_is_symlink: /c/.Trash/1"]
    );
}

#[test]
fn report_of_a_listing() {
    let fs = trash_tree();
    fs.nodes.lock().unwrap().remove("/t/files/b");
    let events = vec![
        Event::SkipNotSticky("/b/.Trash/1".to_string()),
        Event::Found(trash_dir("/v")),
        Event::SkipSymlink("/c/.Trash/1".to_string()),
    ];
    let report = printed(&list_events(&fs, &events, Attribute::Size, false));
    assert_eq!(report.len(), 4);
    assert_eq!(report[0], "err: TrashDir skipped because parent not sticky: /b/.Trash/1");
    assert_eq!(report[1], "out: 10 /home/u/secret.txt");
    assert!(report[2].starts_with("err: "));
    assert_eq!(report[3], "err: TrashDir skipped because parent is symlink: /c/.Trash/1");
}

#[test]
fn listing_of_a_run() {
    let fs = trash_tree();
    let env = environ(None, None, Some(":"), None);
    let selection = Selection { all_users: false, trash_dirs: owned(&["/t"]) };
    let mounts = owned(&["/"]);
    let report = list_trash(&fs, &selection, &env, &mounts, None, DISTINCT, Attribute::DeletionDate, false);
    assert_eq!(
        printed(&report),
        vec!["out: 2024-03-05 17:08:09 /home/u/secret.txt", "out: ????-??-?? ??:??:?? /docs/plain.txt"]
    );
}

fn chosen(matched: &Vec<Result<MatchedItem, String>>) -> Vec<String> {
    matched
        .iter()
        .map(|m| match m {
            Ok(item) => format!("{} {} {}", item.original_location, item.info_path, item.backup_path),
            Err(path) => format!("unparseable {}", path),
        })
        .collect()
}

#[test]
fn pattern_selects_by_basename() {
    let fs = trash_tree();
    let dirs = vec![trash_dir("/mnt/usb")];
    assert_eq!(
        chosen(&list_trashinfo_matches(&fs, &Wildcards, &dirs, "secret*")),
        vec!["/home/u/secret.txt /t/info/a.trashinfo /t/files/a"]
    );
    assert_eq!(
        chosen(&list_trashinfo_matches(&fs, &Wildcards, &dirs, "*.txt")),
        vec!["/home/u/secret.txt /t/info/a.trashinfo /t/files/a", "docs/plain.txt /t/info/b.trashinfo /t/files/b"]
    );
    assert!(list_trashinfo_matches(&fs, &Wildcards, &dirs, "*.bak").is_empty());
}

#[test]
fn pattern_with_separator_selects_by_location() {
    let fs = trash_tree();
    let dirs = vec![trash_dir("/mnt/usb")];
    assert_eq!(
        chosen(&list_trashinfo_matches(&fs, &Wildcards, &dirs, "/mnt/usb/*")),
        vec!["docs/plain.txt /t/info/b.trashinfo /t/files/b"]
    );
    assert_eq!(
        chosen(&list_trashinfo_matches(&fs, &Wildcards, &dirs, "/home/*")),
        vec!["/home/u/secret.txt /t/info/a.trashinfo /t/files/a"]
    );
}

#[test]
fn records_without_location_are_reported_whatever_the_pattern() {
    let fs = trash_tree();
    fs.file("/t/info/c.trashinfo", "nothing");
    fs.put("/t/info/d.trashinfo", Node::Binary);
    let dirs = vec![trash_dir("/")];
    assert_eq!(
        chosen(&list_trashinfo_matches(&fs, &Wildcards, &dirs, "nothing matches")),
        vec!["unparseable /t/info/c.trashinfo", "unparseable /t/info/d.trashinfo"]
    );
}

#[test]
fn plain_file_is_removed() {
    let fs = trash_tree();
    assert!(rm_file2(&fs, "/t/files/a").is_ok());
    assert!(!fs.has("/t/files/a"));
}

#[test]
fn directory_is_removed_by_the_fallback() {
    let fs = trash_tree();
    fs.dir("/t/files/d");
    fs.dir("/t/files/d/sub");
    fs.file("/t/files/d/sub/x", "x");
    assert!(fs.remove_file("/t/files/d").is_err());
    assert!(rm_file2(&fs, "/t/files/d").is_ok());
    assert!(!fs.has("/t/files/d"));
    assert!(!fs.has("/t/files/d/sub/x"));
    assert!(fs.has("/t/files/a"));
}

#[test]
fn failed_removal_reports_the_first_error() {
    let fs = trash_tree();
    fs.put("/t/files/p", Node::Pinned);
    match rm_file2(&fs, "/t/files/p") {
        Err(CoreError::Io(path, cause)) => {
            assert_eq!(path, "/t/files/p");
            assert_eq!(cause.kind(), ErrorKind::PermissionDenied);
        }
        other => panic!("{:?}", other),
    }
    assert!(matches!(rm_file2(&fs, "/t/files/none"), Err(CoreError::Io(_, cause)) if cause.kind() == ErrorKind::NotFound));
}

#[test]
fn absent_payload_is_no_error() {
    let fs = trash_tree();
    assert!(rm_file_if_exists(&fs, "/t/files/none").is_ok());
    fs.put("/t/files/l", Node::Link("/nowhere".to_string()));
    assert!(rm_file_if_exists(&fs, "/t/files/l").is_ok());
    assert!(!fs.has("/t/files/l"));
    assert!(rm_file_if_exists(&fs, "/t/files/a").is_ok());
    assert!(!fs.has("/t/files/a"));
}

fn item(name: &str) -> Result<MatchedItem, String> {
    Ok(MatchedItem {
        original_location: format!("/home/u/{}", name),
        info_path: format!("/t/info/{}.trashinfo", name),
        backup_path: format!("/t/files/{}", name),
    })
}

#[test]
fn record_is_removed_though_the_payload_is_absent() {
    let fs = trash_tree();
    fs.nodes.lock().unwrap().remove("/t/files/a");
    let report = remove_matches(&fs, &vec![item("a")]);
    assert!(!report.had_error);
    assert!(report.messages.is_empty());
    assert!(!fs.has("/t/info/a.trashinfo"));
    assert!(fs.has("/t/info/b.trashinfo"));
    assert!(fs.has("/t/files/b"));
}

#[test]
fn payload_that_is_a_directory_is_removed_with_its_record() {
    let fs = trash_tree();
    fs.dir("/t/files/a");
    fs.file("/t/files/a/inner", "x");
    let report = remove_matches(&fs, &vec![item("a")]);
    assert!(!report.had_error);
    assert!(report.messages.is_empty());
    assert!(!fs.has("/t/files/a"));
    assert!(!fs.has("/t/files/a/inner"));
    assert!(!fs.has("/t/info/a.trashinfo"));
}

#[test]
fn each_failed_step_is_reported_and_the_rest_goes_on() {
    let fs = trash_tree();
    fs.put("/t/files/a", Node::Pinned);
    let report = remove_matches(&fs, &vec![item("a"), item("gone"), Err("/t/info/x.trashinfo".to_string()), item("b")]);
    assert!(report.had_error);
    assert_eq!(report.messages.len(), 3);
    assert!(report.messages[0].starts_with("trash-rm: failed to remove backup file /t/files/a: "));
    assert!(report.messages[0].len() > "trash-rm: failed to remove backup file /t/files/a: ".len());
    assert!(report.messages[1].starts_with("trash-rm: failed to remove trashinfo /t/info/gone.trashinfo: "));
    assert_eq!(report.messages[2], "trash-rm: /t/info/x.trashinfo: unable to parse 'Path'");
    assert!(fs.has("/t/files/a"));
    assert!(!fs.has("/t/info/a.trashinfo"));
    assert!(!fs.has("/t/info/b.trashinfo"));
    assert!(!fs.has("/t/files/b"));
}

#[test]
fn unparseable_record_alone_is_no_failure() {
    let fs = trash_tree();
    let report = remove_matches(&fs, &vec![Err("/t/info/x.trashinfo".to_string())]);
    assert!(!report.had_error);
    assert_eq!(report.messages, vec!["trash-rm: /t/info/x.trashinfo: unable to parse 'Path'"]);
}

#[test]
fn reason_of_an_error() {
    let io = failure("/p", ErrorKind::NotFound);
    assert_eq!(error_text(&io), Error::from(ErrorKind::NotFound).to_string());
    assert_eq!(error_text(&CoreError::conflict("c")), "resource conflict: c");
}

#[test]
fn exit_codes_of_removal() {
    assert_eq!(exit_code(false), 0);
    assert_eq!(exit_code(true), 1);
    assert_eq!((EXIT_DONE, EXIT_FAILED, EXIT_NO_PATTERN), (0, 1, 8));
}

/// A home trash with two records, one of them about a secret.
fn home_tree() -> (MemFs, Environment) {
    let fs = MemFs::new();
    for dir in ["/home/u/.local/share/Trash", "/home/u/.local/share/Trash/info", "/home/u/.local/share/Trash/files"] {
        fs.dir(dir);
    }
    fs.file("/home/u/.local/share/Trash/info/secret-plan.trashinfo", "[Trash Info]\nPath=/home/u/secret-plan\nDeletionDate=2024-03-05T17:08:09\n");
    fs.file("/home/u/.local/share/Trash/files/secret-plan", "plan");
    fs.file("/home/u/.local/share/Trash/info/notes.trashinfo", "[Trash Info]\nPath=/home/u/notes\nDeletionDate=2024-03-05T17:08:09\n");
    fs.file("/home/u/.local/share/Trash/files/notes", "notes");
    (fs, environ(None, Some("/home/u"), Some(":"), None))
}

#[test]
fn removal_end_to_end() {
    let (fs, env) = home_tree();
    let result = run_removal(&fs, &Wildcards, &env, 1000, Some("secret*"), EXISTING);
    assert_eq!(result.exit_code, 0);
    assert!(result.stderr.is_empty());
    assert!(!fs.has("/home/u/.local/share/Trash/info/secret-plan.trashinfo"));
    assert!(!fs.has("/home/u/.local/share/Trash/files/secret-plan"));
    assert!(fs.has("/home/u/.local/share/Trash/info/notes.trashinfo"));
    assert!(fs.has("/home/u/.local/share/Trash/files/notes"));
}

#[test]
fn removal_without_pattern_touches_nothing() {
    let (fs, env) = home_tree();
    let before = fs.paths();
    let result = run_removal(&fs, &Wildcards, &env, 1000, None, EXISTING);
    assert_eq!(result.exit_code, 8);
    assert_eq!(result.stderr, vec![USAGE]);
    assert!(USAGE.starts_with("Usage:\n    trash-rm PATTERN\n"));
    assert_eq!(fs.paths(), before);
    assert!(fs.reads.lock().unwrap().is_empty());
}

#[test]
fn removal_that_fails_ends_with_one() {
    let (fs, env) = home_tree();
    fs.put("/home/u/.local/share/Trash/files/notes", Node::Pinned);
    let result = run_removal(&fs, &Wildcards, &env, 1000, Some("*"), EXISTING);
    assert_eq!(result.exit_code, 1);
    assert_eq!(result.stderr.len(), 1);
    assert!(result.stderr[0].starts_with("trash-rm: failed to remove backup file /home/u/.local/share/Trash/files/notes: "));
    assert!(!fs.has("/home/u/.local/share/Trash/info/notes.trashinfo"));
    assert!(!fs.has("/home/u/.local/share/Trash/files/secret-plan"));
}

#[test]
fn removal_of_nothing_ends_with_zero() {
    let (fs, env) = home_tree();
    let before = fs.paths();
    let result = run_removal(&fs, &Wildcards, &env, 1000, Some("no such thing"), EXISTING);
    assert_eq!(result.exit_code, 0);
    assert!(result.stderr.is_empty());
    assert_eq!(fs.paths(), before);
}

#[test]
fn canonical_path_or_the_path_itself() {
    let fs = MemFs::new();
    fs.dir("/real");
    fs.put("/alias", Node::Link("/real".to_string()));
    assert_eq!(canonical_or_relaxed(&fs, "/alias"), "/real");
    assert_eq!(canonical_or_relaxed(&fs, "/real"), "/real");
    assert_eq!(canonical_or_relaxed(&fs, "/missing/x"), "/missing/x");
}

#[test]
fn lines_of_a_listing() {
    assert_eq!(format_line("attr", "/a b"), "attr /a b");
    assert_eq!(format_line2("attr", "/a", "/t/files/a"), "attr /a -> /t/files/a");
    assert_eq!(entry_line("/mnt/usb", "/t/info/x.trashinfo", "rel", "12", false), "12 /mnt/usb/rel");
    assert_eq!(entry_line("/mnt/usb", "/t/info/x.trashinfo", "/abs", "12", true), "12 /abs -> /t/files/x");
    assert_eq!(parse_error_line("/t/info/x.trashinfo"), "Parse Error: /t/info/x.trashinfo: Unable to parse Path.");
}

#[test]
fn lines_of_events() {
    let found = Event::Found(trash_dir("/v"));
    let loose = Event::SkipNotSticky("/b/.Trash/1".to_string());
    let linked = Event::SkipSymlink("/c/.Trash/1".to_string());
    assert_eq!(skip_line(&found), None);
    assert_eq!(skip_line(&loose), Some("TrashDir skipped because parent not sticky: /b/.Trash/1".to_string()));
    assert_eq!(skip_line(&linked), Some("TrashDir skipped because parent is symlink: /c/.Trash/1".to_string()));
    assert_eq!(trash_dir_line(&found), "/t");
    assert_eq!(trash_dir_line(&loose), "parent_not_sticky: /b/.Trash/1");
    assert_eq!(trash_dir_line(&linked), "parent_is_symlink: /c/.Trash/1");
}

#[test]
fn size_from_what_was_told() {
    let file = FileMetadata { is_dir: false, is_file: true, is_symlink: false, mode: 0o644, len: 42 };
    let link = FileMetadata { is_dir: false, is_file: false, is_symlink: true, mode: 0o777, len: 9 };
    assert_eq!(size_from(Ok(file), &None).ok(), Some(42));
    assert_eq!(size_from(Ok(file), &Some(link)).ok(), Some(42));
    assert_eq!(size_from(Err(failure("/p", ErrorKind::NotFound)), &Some(link)).ok(), Some(0));
    assert!(matches!(size_from(Err(failure("/p", ErrorKind::NotFound)), &Some(file)), Err(CoreError::Io(p, _)) if p == "/p"));
    assert!(matches!(size_from(Err(failure("/p", ErrorKind::NotFound)), &None), Err(CoreError::Io(p, _)) if p == "/p"));
}

fn outcomes() -> Vec<ScanOutcome> {
    vec![
        read_record("/t/info/a.trashinfo", Ok("Path=rel/a\nDeletionDate=2024-03-05T17:08:09".to_string())),
        read_record("/t/info/n.trashinfo", Ok("nothing".to_string())),
        read_record("/t/info/u.trashinfo", Err(failure("/t/info/u.trashinfo", ErrorKind::InvalidData))),
        read_record("/t/info/b.trashinfo", Ok("Path=/abs/b".to_string())),
    ]
}

#[test]
fn listing_of_given_outcomes() {
    let fs = trash_tree();
    let dated = list_outcomes(&fs, "/v", &outcomes(), Attribute::DeletionDate, true);
    assert!(dated.failure.is_none());
    let lines = printed(&dated.lines);
    assert_eq!(lines.len(), 4);
    assert_eq!(lines[0], "out: 2024-03-05 17:08:09 /v/rel/a -> /t/files/a");
    assert_eq!(lines[1], "err: Parse Error: /t/info/n.trashinfo: Unable to parse Path.");
    assert_eq!(lines[2], format!("err: {}", Error::from(ErrorKind::InvalidData)));
    assert_eq!(lines[3], "out: ????-??-?? ??:??:?? /abs/b -> /t/files/b");
    let sized = list_outcomes(&fs, "/v", &outcomes(), Attribute::Size, false);
    assert_eq!(printed(&sized.lines)[0], "out: 10 /v/rel/a");
    assert_eq!(printed(&sized.lines)[3], "out: 5 /abs/b");
    fs.nodes.lock().unwrap().remove("/t/files/b");
    let cut = list_outcomes(&fs, "/v", &outcomes(), Attribute::Size, false);
    assert_eq!(cut.lines.len(), 3);
    assert!(cut.failure.is_some());
}

#[test]
fn selection_from_given_outcomes() {
    let all = select_records(&Wildcards, "/v", &outcomes(), "*");
    assert_eq!(
        chosen(&all),
        vec![
            "rel/a /t/info/a.trashinfo /t/files/a",
            "unparseable /t/info/n.trashinfo",
            "unparseable /t/info/u.trashinfo",
            "/abs/b /t/info/b.trashinfo /t/files/b",
        ]
    );
    let below = select_records(&Wildcards, "/v", &outcomes(), "/v/*");
    assert_eq!(
        chosen(&below),
        vec!["rel/a /t/info/a.trashinfo /t/files/a", "unparseable /t/info/n.trashinfo", "unparseable /t/info/u.trashinfo"]
    );
    let none = select_records(&Wildcards, "/v", &outcomes(), "*\0");
    assert_eq!(chosen(&none), vec!["unparseable /t/info/n.trashinfo", "unparseable /t/info/u.trashinfo"]);
    assert!(select_records(&Wildcards, "/v", &Vec::new(), "*").is_empty());
}

#[test]
fn item_of_a_record() {
    let record = TrashInfoRecord { info_path: "/t/info/x.trashinfo".to_string(), location: "rel/x".to_string(), deletion_date: None };
    let item = matched_item(&record);
    assert_eq!(item.original_location, "rel/x");
    assert_eq!(item.info_path, "/t/info/x.trashinfo");
    assert_eq!(item.backup_path, "/t/files/x");
}

#[test]
fn settling_a_removal() {
    assert!(settle_removal(failure("/p", ErrorKind::PermissionDenied), Ok(())).is_ok());
    let both = settle_removal(failure("/p", ErrorKind::PermissionDenied), Err(failure("/q", ErrorKind::NotFound)));
    assert!(matches!(both, Err(CoreError::Io(p, cause)) if p == "/p" && cause.kind() == ErrorKind::PermissionDenied));
}

#[test]
fn noting_a_failure() {
    let mut report = RemovalReport { messages: vec!["earlier".to_string()], had_error: false };
    note_failure(&mut report, "heading ", "/some/path", "the reason");
    assert!(report.had_error);
    assert_eq!(report.messages, vec!["earlier", "heading /some/path: the reason"]);
}

#[test]
fn something_is_there_where_metadata_can_be_read() {
    let fs = trash_tree();
    fs.put("/t/files/l", Node::Link("/nowhere".to_string()));
    assert!(is_there(&fs.symlink_metadata("/t/files/a")));
    assert!(is_there(&fs.symlink_metadata("/t/files/l")));
    assert!(is_there(&fs.symlink_metadata("/t/files")));
    assert!(!is_there(&fs.symlink_metadata("/t/files/none")));
    assert!(!is_there(&Err(failure("/p", ErrorKind::PermissionDenied))));
}

#[test]
fn matches_of_several_directories_come_in_their_order() {
    let fs = trash_tree();
    fs.dir("/u");
    fs.dir("/u/info");
    fs.file("/u/info/z.trashinfo", "Path=zed.txt\n");
    fs.file("/u/info/bad.trashinfo", "nothing");
    let dirs = vec![
        TrashDir { path: "/u".to_string(), volume: "/vol".to_string() },
        TrashDir { path: "/missing".to_string(), volume: "/".to_string() },
        trash_dir("/mnt/usb"),
    ];
    assert_eq!(
        chosen(&list_trashinfo_matches(&fs, &Wildcards, &dirs, "*.txt")),
        vec![
            "unparseable /u/info/bad.trashinfo",
            "zed.txt /u/info/z.trashinfo /u/files/z",
            "/home/u/secret.txt /t/info/a.trashinfo /t/files/a",
            "docs/plain.txt /t/info/b.trashinfo /t/files/b",
        ]
    );
    assert_eq!(
        chosen(&list_trashinfo_matches(&fs, &Wildcards, &dirs, "/vol/*")),
        vec!["unparseable /u/info/bad.trashinfo", "zed.txt /u/info/z.trashinfo /u/files/z"]
    );
    assert!(list_trashinfo_matches(&fs, &Wildcards, &Vec::new(), "*").is_empty());
}

#[test]
fn size_attribute_of_a_record() {
    let fs = trash_tree();
    assert_eq!(size_attribute(&fs, "/t/info/a.trashinfo").ok(), Some("10".to_string()));
    assert_eq!(size_attribute(&fs, "/t/info/b.trashinfo").ok(), Some("5".to_string()));
    fs.put("/t/files/l", Node::Link("/nowhere".to_string()));
    assert_eq!(size_attribute(&fs, "/t/info/l.trashinfo").ok(), Some("0".to_string()));
    assert!(matches!(size_attribute(&fs, "/t/info/none.trashinfo"), Err(CoreError::Io(p, _)) if p == "/t/files/none"));
}

#[test]
fn volume_of_a_path_with_odd_separators() {
    let mounts = owned(&["/", "/mnt/usb"]);
    assert_eq!(volume_of("/mnt/usb//a/./b/", &mounts, None), "/mnt/usb");
    assert_eq!(volume_of("/mnt//usb/a", &mounts, None), "/");
    assert_eq!(volume_of("./a", &Vec::new(), None), "");
}
