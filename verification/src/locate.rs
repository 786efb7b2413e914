//! Trash directory discovery: the candidates of each volume and the checks
//! that a shared top-level trash directory has to pass.

use vstd::prelude::*;
use vstd::string::StringExecFns;
use crate::errors::CoreError;
use crate::fs::{answered, found, FileMetadata, FileSystem};
use crate::paths::{join_path, joined, parent, parent_of};

verus! {

/// Name of the shared trash directory at the top of a volume.
pub const TOP_TRASH_NAME: &'static str = ".Trash";

/// What the alternate trash directory of a user is called, before the user id.
pub const ALT_TRASH_PREFIX: &'static str = ".Trash-";

/// The sticky permission bit.
pub const STICKY_BIT: u32 = 0o1000;

/// A trash directory and the volume it belongs to.
#[derive(Debug, Clone)]
pub struct TrashDir {
    pub path: String,
    pub volume: String,
}

/// What discovery reports of one candidate.
#[derive(Debug)]
pub enum Event {
    Found(TrashDir),
    SkipNotSticky(String),
    SkipSymlink(String),
}

/// What the checks of a top-level candidate end in.
#[derive(Debug)]
pub enum ScanEvent {
    Found(TrashDir),
    SkippedNotSticky(String),
    SkippedSymlink(String),
    SkippedMissing,
}

/// How a top-level candidate fares.
#[derive(Debug, Clone, Copy, PartialEq, Eq, Structural)]
pub enum Verdict {
    Found,
    NotSticky,
    Symlink,
    Missing,
}

/// The kind of an event.
#[derive(Debug, Clone, Copy, PartialEq, Eq, Structural)]
pub enum EventKind {
    Found,
    SkipNotSticky,
    SkipSymlink,
}

/// An event as a value of the model: its kind, the candidate's path, and for
/// a directory that was found its volume; the volume of a skip is empty.
pub struct EventView {
    pub kind: EventKind,
    pub path: Seq<char>,
    pub volume: Seq<char>,
}

impl View for Event {
    type V = EventView;

    open spec fn view(&self) -> EventView {
        match self {
            Event::Found(dir) => EventView {
                kind: EventKind::Found,
                path: dir.path@,
                volume: dir.volume@,
            },
            Event::SkipNotSticky(path) => EventView {
                kind: EventKind::SkipNotSticky,
                path: path@,
                volume: Seq::empty(),
            },
            Event::SkipSymlink(path) => EventView {
                kind: EventKind::SkipSymlink,
                path: path@,
                volume: Seq::empty(),
            },
        }
    }
}

/// The views of a sequence of events.
pub open spec fn event_views(events: Seq<Event>) -> Seq<EventView> {
    Seq::new(events.len(), |i: int| events[i]@)
}

impl ScanEvent {
    /// How the candidate fared.
    pub open spec fn verdict(self) -> Verdict {
        match self {
            ScanEvent::Found(_) => Verdict::Found,
            ScanEvent::SkippedNotSticky(_) => Verdict::NotSticky,
            ScanEvent::SkippedSymlink(_) => Verdict::Symlink,
            ScanEvent::SkippedMissing => Verdict::Missing,
        }
    }

    /// The path that the event names; empty for a missing candidate.
    pub open spec fn path(self) -> Seq<char> {
        match self {
            ScanEvent::Found(dir) => dir.path@,
            ScanEvent::SkippedNotSticky(path) => path@,
            ScanEvent::SkippedSymlink(path) => path@,
            ScanEvent::SkippedMissing => Seq::empty(),
        }
    }
}

/// What the file system tells of a top-level candidate: whether the candidate
/// exists, and the metadata of its parent, with symbolic links followed and
/// not followed. A parent that cannot be read has no metadata.
#[derive(Debug, Clone, Copy, PartialEq, Eq, Structural)]
pub struct TopDirFacts {
    pub present: bool,
    pub parent: Option<FileMetadata>,
    pub parent_link: Option<FileMetadata>,
}

/// What the file system tells of the two candidates of a volume.
#[derive(Debug, Clone, Copy, PartialEq, Eq, Structural)]
pub struct VolumeFacts {
    pub top: TopDirFacts,
    /// Metadata of the alternate candidate, symbolic links followed.
    pub alt: Option<FileMetadata>,
}

/// A directory with the sticky bit set.
pub open spec fn sticky_dir(meta: Option<FileMetadata>) -> bool {
    meta matches Some(m) && m.is_dir && m.mode & STICKY_BIT == STICKY_BIT
}

/// A symbolic link.
pub open spec fn symlink(meta: Option<FileMetadata>) -> bool {
    meta matches Some(m) && m.is_symlink
}

/// A directory.
pub open spec fn directory(meta: Option<FileMetadata>) -> bool {
    meta matches Some(m) && m.is_dir
}

/// Whether the metadata are those of a directory with the sticky bit set.
pub fn is_sticky_dir(meta: &Option<FileMetadata>) -> (sticky: bool)
    ensures
        sticky == sticky_dir(*meta),
{
    match meta {
        Some(m) => m.is_dir && m.mode & STICKY_BIT == STICKY_BIT,
        None => false,
    }
}

/// Whether the metadata are those of a symbolic link.
pub fn is_symlink(meta: &Option<FileMetadata>) -> (link: bool)
    ensures
        link == symlink(*meta),
{
    match meta {
        Some(m) => m.is_symlink,
        None => false,
    }
}

/// Whether the metadata are those of a directory.
pub fn is_dir(meta: &Option<FileMetadata>) -> (dir: bool)
    ensures
        dir == directory(*meta),
{
    match meta {
        Some(m) => m.is_dir,
        None => false,
    }
}

/// The verdict on a top-level candidate at `path`. It is found only if it
/// exists, has a parent, the parent is a directory with the sticky bit set,
/// and the parent is no symbolic link. The first check that fails names the
/// verdict.
pub open spec fn top_dir_verdict(path: Seq<char>, facts: TopDirFacts) -> Verdict {
    if !facts.present || parent_of(path) is None {
        Verdict::Missing
    } else if !sticky_dir(facts.parent) {
        Verdict::NotSticky
    } else if symlink(facts.parent_link) {
        Verdict::Symlink
    } else {
        Verdict::Found
    }
}

/// Checks a top-level candidate against what the file system told of it.
pub fn validate_top_trash_dir(path: &str, facts: &TopDirFacts) -> (event: ScanEvent)
    ensures
        event.verdict() == top_dir_verdict(path@, *facts),
        event.verdict() != Verdict::Missing ==> event.path() == path@,
        event matches ScanEvent::Found(dir) ==> dir.volume@.len() == 0,
        !sticky_dir(facts.parent) ==> event.verdict() != Verdict::Found,
        symlink(facts.parent_link) ==> event.verdict() != Verdict::Found,
{
    if !facts.present {
        return ScanEvent::SkippedMissing;
    }
    if parent(path).is_none() {
        return ScanEvent::SkippedMissing;
    }
    if !is_sticky_dir(&facts.parent) {
        return ScanEvent::SkippedNotSticky(path.to_owned());
    }
    if is_symlink(&facts.parent_link) {
        return ScanEvent::SkippedSymlink(path.to_owned());
    }
    ScanEvent::Found(TrashDir { path: path.to_owned(), volume: String::new() })
}

/// The facts with the sticky bit of the parent set or cleared.
pub open spec fn with_sticky(facts: TopDirFacts, on: bool) -> TopDirFacts {
    match facts.parent {
        Some(m) => TopDirFacts {
            parent: Some(
                FileMetadata {
                    mode: if on {
                        m.mode | STICKY_BIT
                    } else {
                        m.mode & !STICKY_BIT
                    },
                    ..m
                },
            ),
            ..facts
        },
        None => facts,
    }
}

/// A top-level candidate whose parent lacks the sticky bit is never found;
/// with all other checks passing, setting the bit makes it found.
pub proof fn lemma_sticky_bit_decides(path: Seq<char>, facts: TopDirFacts)
    ensures
        top_dir_verdict(path, with_sticky(facts, false)) != Verdict::Found,
        facts.present && parent_of(path) is Some && directory(facts.parent) && !symlink(
            facts.parent_link,
        ) ==> top_dir_verdict(path, with_sticky(facts, true)) == Verdict::Found
            && top_dir_verdict(path, with_sticky(facts, false)) == Verdict::NotSticky,
{
    if let Some(m) = facts.parent {
        let mode = m.mode;
        assert((mode | 0o1000u32) & 0o1000u32 == 0o1000u32) by (bit_vector);
        assert((mode & !0o1000u32) & 0o1000u32 != 0o1000u32) by (bit_vector);
    }
}

/// A top-level candidate whose parent is a symbolic link is rejected, whatever
/// its sticky bit.
pub proof fn lemma_symlinked_parent_is_rejected(path: Seq<char>, facts: TopDirFacts, on: bool)
    requires
        symlink(facts.parent_link),
    ensures
        top_dir_verdict(path, with_sticky(facts, on)) != Verdict::Found,
        top_dir_verdict(path, facts) != Verdict::Found,
{
}

/// The top-level candidate of a volume for a user.
pub open spec fn top_trash_path(volume: Seq<char>, uid: Seq<char>) -> Seq<char> {
    joined(joined(volume, TOP_TRASH_NAME@), uid)
}

/// The alternate candidate of a volume for a user.
pub open spec fn alt_trash_path(volume: Seq<char>, uid: Seq<char>) -> Seq<char> {
    joined(volume, ALT_TRASH_PREFIX@ + uid)
}

/// The path of the top-level candidate of a volume for a user.
pub fn top_trash_dir(volume: &str, uid: &str) -> (path: String)
    ensures
        path@ == top_trash_path(volume@, uid@),
{
    let shared = join_path(volume, TOP_TRASH_NAME);
    join_path(shared.as_str(), uid)
}

/// The path of the alternate candidate of a volume for a user.
pub fn alt_trash_dir(volume: &str, uid: &str) -> (path: String)
    ensures
        path@ == alt_trash_path(volume@, uid@),
{
    let name = String::from_str(ALT_TRASH_PREFIX).concat(uid);
    join_path(volume, name.as_str())
}

/// The events that the two candidates of a volume give rise to: that of the
/// top-level candidate first, unless it is missing, then the alternate
/// candidate if it is a directory.
pub open spec fn volume_events(volume: Seq<char>, uid: Seq<char>, facts: VolumeFacts) -> Seq<
    EventView,
> {
    let top = top_trash_path(volume, uid);
    let first = match top_dir_verdict(top, facts.top) {
        Verdict::Found => seq![EventView { kind: EventKind::Found, path: top, volume }],
        Verdict::NotSticky => seq![
            EventView { kind: EventKind::SkipNotSticky, path: top, volume: Seq::empty() },
        ],
        Verdict::Symlink => seq![
            EventView { kind: EventKind::SkipSymlink, path: top, volume: Seq::empty() },
        ],
        Verdict::Missing => Seq::empty(),
    };
    if directory(facts.alt) {
        first.push(
            EventView { kind: EventKind::Found, path: alt_trash_path(volume, uid), volume },
        )
    } else {
        first
    }
}

/// The top-level candidate of a volume is reported as found only if its
/// parent is a directory with the sticky bit set and is no symbolic link;
/// the alternate candidate only if it is a directory.
pub proof fn lemma_volume_events_respect_checks(
    volume: Seq<char>,
    uid: Seq<char>,
    facts: VolumeFacts,
)
    ensures
        forall|i: int|
            0 <= i < volume_events(volume, uid, facts).len() && (#[trigger] volume_events(
                volume,
                uid,
                facts,
            )[i]).kind == EventKind::Found ==> {
                let event = volume_events(volume, uid, facts)[i];
                ||| event.path == top_trash_path(volume, uid) && facts.top.present && sticky_dir(
                    facts.top.parent,
                ) && !symlink(facts.top.parent_link)
                ||| event.path == alt_trash_path(volume, uid) && directory(facts.alt)
            },
{
}

/// Adds to `out` the events of one volume, given what the file system told of
/// its two candidates.
pub fn scan_top_trash_dir(volume: &str, uid: &str, facts: &VolumeFacts, out: &mut Vec<Event>)
    ensures
        event_views(final(out)@) == event_views(old(out)@) + volume_events(
            volume@,
            uid@,
            *facts,
        ),
{
    let ghost before = event_views(out@);
    let top = top_trash_dir(volume, uid);
    match validate_top_trash_dir(top.as_str(), &facts.top) {
        ScanEvent::Found(_) => out.push(
            Event::Found(TrashDir { path: top, volume: volume.to_owned() }),
        ),
        ScanEvent::SkippedNotSticky(path) => out.push(Event::SkipNotSticky(path)),
        ScanEvent::SkippedSymlink(path) => out.push(Event::SkipSymlink(path)),
        ScanEvent::SkippedMissing => {},
    }
    if is_dir(&facts.alt) {
        let alt = alt_trash_dir(volume, uid);
        out.push(Event::Found(TrashDir { path: alt, volume: volume.to_owned() }));
    }
    assert(event_views(out@) =~= before + volume_events(volume@, uid@, *facts));
}

/// Whether `facts` are what the file system told of the candidate at `path`:
/// its answer to the question whether `path` exists, and, where the path has
/// a parent, its answers to the questions for the metadata of the parent,
/// links followed and not followed. A path without parent has no such facts.
pub open spec fn is_probe_of<F: FileSystem>(fs: &F, path: &str, facts: TopDirFacts) -> bool {
    &&& call_ensures(F::path_exists, (fs, path), facts.present)
    &&& match parent_of(path@) {
        Some(dir) => exists|at: &str, meta: Result<FileMetadata, CoreError>|
            #[trigger] call_ensures(F::metadata, (fs, at), meta) && at@ == dir && facts.parent
                == answered(meta) && exists|link: Result<FileMetadata, CoreError>|
                #[trigger] call_ensures(F::symlink_metadata, (fs, at), link) && facts.parent_link
                    == answered(link),
        None => facts.parent is None && facts.parent_link is None,
    }
}

/// Asks the file system what `validate_top_trash_dir` needs to know of the
/// candidate at `path`.
pub fn probe_top_trash_dir<F: FileSystem>(fs: &F, path: &str) -> (facts: TopDirFacts)
    ensures
        is_probe_of(fs, path, facts),
        parent_of(path@) is None ==> facts.parent is None && facts.parent_link is None,
{
    let present = fs.path_exists(path);
    match parent(path) {
        Some(dir) => {
            let at = dir.as_str();
            let meta = fs.metadata(at);
            let link = fs.symlink_metadata(at);
            proof {
                assert(at@ == parent_of(path@)->0);
                assert(call_ensures(F::metadata, (fs, at), meta));
                assert(call_ensures(F::symlink_metadata, (fs, at), link));
            }
            TopDirFacts { present, parent: found(meta), parent_link: found(link) }
        },
        None => TopDirFacts { present, parent: None, parent_link: None },
    }
}

/// Whether `facts` are what the file system told of the two candidates of a
/// volume: for the top-level candidate what `is_probe_of` says, for the
/// alternate candidate its answer to the question for the candidate's
/// metadata.
pub open spec fn is_volume_probe<F: FileSystem>(
    fs: &F,
    volume: Seq<char>,
    uid: Seq<char>,
    facts: VolumeFacts,
) -> bool {
    exists|top: &str, alt: &str, meta: Result<FileMetadata, CoreError>|
        #![trigger is_probe_of(fs, top, facts.top), call_ensures(F::metadata, (fs, alt), meta)]
        top@ == top_trash_path(volume, uid) && alt@ == alt_trash_path(volume, uid) && is_probe_of(
            fs,
            top,
            facts.top,
        ) && call_ensures(F::metadata, (fs, alt), meta) && facts.alt == answered(meta)
}

/// Asks the file system about the two candidates of a volume.
pub fn probe_volume<F: FileSystem>(fs: &F, volume: &str, uid: &str) -> (facts: VolumeFacts)
    ensures
        is_volume_probe(fs, volume@, uid@, facts),
{
    let top = top_trash_dir(volume, uid);
    let alt = alt_trash_dir(volume, uid);
    VolumeFacts {
        top: probe_top_trash_dir(fs, top.as_str()),
        alt: found(fs.metadata(alt.as_str())),
    }
}

/// The sticky-bit gate holds of the locator: where every answer of the file
/// system for the metadata of the parent of a volume's top-level candidate
/// lacks the sticky bit or is no directory, the candidate is not found.
pub proof fn lemma_unsticky_parent_keeps_candidate_out<F: FileSystem>(
    fs: &F,
    volume: Seq<char>,
    uid: Seq<char>,
    facts: VolumeFacts,
)
    requires
        is_volume_probe(fs, volume, uid, facts),
        forall|at: &str, meta: Result<FileMetadata, CoreError>|
            #[trigger] call_ensures(F::metadata, (fs, at), meta) && Some(at@) == parent_of(
                top_trash_path(volume, uid),
            ) ==> !sticky_dir(answered(meta)),
    ensures
        top_dir_verdict(top_trash_path(volume, uid), facts.top) != Verdict::Found,
        forall|i: int|
            0 <= i < volume_events(volume, uid, facts).len() && (#[trigger] volume_events(
                volume,
                uid,
                facts,
            )[i]).kind == EventKind::Found ==> volume_events(volume, uid, facts)[i].path
                == alt_trash_path(volume, uid),
{
}

/// The symlink gate holds of the locator: where every answer of the file
/// system for the metadata of the parent itself says that it is a symbolic
/// link, the top-level candidate is not found, whatever its sticky bit.
pub proof fn lemma_symlinked_parent_keeps_candidate_out<F: FileSystem>(
    fs: &F,
    volume: Seq<char>,
    uid: Seq<char>,
    facts: VolumeFacts,
)
    requires
        is_volume_probe(fs, volume, uid, facts),
        forall|at: &str, link: Result<FileMetadata, CoreError>|
            #[trigger] call_ensures(F::symlink_metadata, (fs, at), link) && Some(at@) == parent_of(
                top_trash_path(volume, uid),
            ) ==> symlink(answered(link)),
    ensures
        top_dir_verdict(top_trash_path(volume, uid), facts.top) != Verdict::Found,
{
}

/// With every check passing, the top-level candidate is found: it exists,
/// and every answer for its parent tells of a directory with the sticky bit
/// set that is no symbolic link.
pub proof fn lemma_candidate_that_passes_is_found<F: FileSystem>(
    fs: &F,
    volume: Seq<char>,
    uid: Seq<char>,
    facts: VolumeFacts,
)
    requires
        is_volume_probe(fs, volume, uid, facts),
        parent_of(top_trash_path(volume, uid)) is Some,
        forall|at: &str, present: bool|
            #[trigger] call_ensures(F::path_exists, (fs, at), present) && at@ == top_trash_path(
                volume,
                uid,
            ) ==> present,
        forall|at: &str, meta: Result<FileMetadata, CoreError>|
            #[trigger] call_ensures(F::metadata, (fs, at), meta) && Some(at@) == parent_of(
                top_trash_path(volume, uid),
            ) ==> sticky_dir(answered(meta)),
        forall|at: &str, link: Result<FileMetadata, CoreError>|
            #[trigger] call_ensures(F::symlink_metadata, (fs, at), link) && Some(at@) == parent_of(
                top_trash_path(volume, uid),
            ) ==> !symlink(answered(link)),
    ensures
        top_dir_verdict(top_trash_path(volume, uid), facts.top) == Verdict::Found,
        volume_events(volume, uid, facts).len() > 0,
        volume_events(volume, uid, facts)[0] == (EventView {
            kind: EventKind::Found,
            path: top_trash_path(volume, uid),
            volume,
        }),
{
}

/// An alternate candidate that every answer of the file system tells to be a
/// directory is found, once and last among the events of its volume, whatever
/// becomes of the top-level candidate.
pub proof fn lemma_alternate_directory_is_found<F: FileSystem>(
    fs: &F,
    volume: Seq<char>,
    uid: Seq<char>,
    facts: VolumeFacts,
)
    requires
        is_volume_probe(fs, volume, uid, facts),
        forall|at: &str, meta: Result<FileMetadata, CoreError>|
            #[trigger] call_ensures(F::metadata, (fs, at), meta) && at@ == alt_trash_path(
                volume,
                uid,
            ) ==> directory(answered(meta)),
    ensures
        volume_events(volume, uid, facts).len() > 0,
        volume_events(volume, uid, facts).last() == (EventView {
            kind: EventKind::Found,
            path: alt_trash_path(volume, uid),
            volume,
        }),
{
}

} // verus!
