//! Discovery of the trash directories that a user may own: the volume set,
//! the home trash, and the candidates of every volume.

use vstd::prelude::*;
use vstd::string::StringExecFns;
use crate::errors::CoreError;
use crate::fs::{content_text, FileSystem};
use crate::locate::{event_views, is_volume_probe, probe_volume, scan_top_trash_dir, volume_events, Event, EventKind, EventView, TrashDir, VolumeFacts};
use crate::mounts::{dedup_mount_points, distinct, mount_points, opt_str_text, override_volumes, parse_mount_table, volumes_from_override};
use crate::paths::opt_text;
use crate::text::texts;
use crate::volumes::{search_start, volume_from, volume_of};

verus! {

/// Where the mount table is kept.
pub const MOUNT_TABLE: &'static str = "/proc/self/mounts";

/// The values of the process environment that discovery reads, captured
/// once.
#[derive(Debug, Clone)]
pub struct Environment {
    /// `XDG_DATA_HOME`
    pub xdg_data_home: Option<String>,
    /// `HOME`
    pub home: Option<String>,
    /// The volume override, a list of volumes separated by colons.
    pub trash_volumes: Option<String>,
    /// `UID`
    pub uid: Option<String>,
}

/// What a caller wants done with the mount points of the mount table.
#[derive(Debug, Clone, Copy, PartialEq, Eq, Structural)]
pub struct MountPolicy {
    /// Keep each mount point once, where it occurs first.
    pub dedup: bool,
    /// Drop the mount points that do not exist on disk.
    pub only_existing: bool,
}

/// The items whose mark is set, in their order.
pub open spec fn kept(items: Seq<Seq<char>>, marks: Seq<bool>) -> Seq<Seq<char>>
    decreases items.len(),
{
    if items.len() == 0 || marks.len() != items.len() {
        Seq::empty()
    } else if marks.last() {
        kept(items.drop_last(), marks.drop_last()).push(items.last())
    } else {
        kept(items.drop_last(), marks.drop_last())
    }
}

/// The mount points of a mount table that a policy looks at: all of them, or
/// each once. A table that could not be read has none.
pub open spec fn mount_candidates(content: Option<Seq<char>>, policy: MountPolicy) -> Seq<Seq<char>> {
    match content {
        Some(table) => if policy.dedup {
            distinct(mount_points(table))
        } else {
            mount_points(table)
        },
        None => Seq::empty(),
    }
}

/// The mount points that a policy selects from a mount table, given for each
/// candidate whether it exists. A table that could not be read gives none.
pub open spec fn mount_selection(
    content: Option<Seq<char>>,
    policy: MountPolicy,
    present: Seq<bool>,
) -> Seq<Seq<char>> {
    if policy.only_existing {
        kept(mount_candidates(content, policy), present)
    } else {
        mount_candidates(content, policy)
    }
}

/// Whether `present` is an answer of the file system to the question whether
/// `path` exists.
pub open spec fn is_presence<F: FileSystem>(fs: &F, path: Seq<char>, present: bool) -> bool {
    exists|at: &str| #[trigger] call_ensures(F::path_exists, (fs, at), present) && at@ == path
}

/// Whether `present` holds, for each of `paths` in turn, an answer of the
/// file system to the question whether the path exists.
pub open spec fn are_presences<F: FileSystem>(fs: &F, paths: Seq<Seq<char>>, present: Seq<bool>) -> bool {
    &&& present.len() == paths.len()
    &&& forall|k: int| 0 <= k < paths.len() ==> is_presence(fs, paths[k], #[trigger] present[k])
}

/// Whether `points` are the mount points of the system under `policy`: what
/// `mount_selection` makes of an answer of the file system to the request to
/// read the mount table and, where the policy asks for it, of its answers to
/// the question whether each candidate exists.
pub open spec fn is_mount_selection<F: FileSystem>(
    fs: &F,
    policy: MountPolicy,
    points: Seq<Seq<char>>,
) -> bool {
    exists|answer: Result<String, CoreError>, present: Seq<bool>|
        call_ensures(F::read_to_string, (fs, MOUNT_TABLE), answer) && (policy.only_existing
            ==> are_presences(fs, mount_candidates(content_text(answer), policy), present))
            && points == #[trigger] mount_selection(content_text(answer), policy, present)
}

/// The mount points of the system under the given policy. The mount table is
/// read through `fs`; one that cannot be read gives no mount point and no
/// error.
pub fn list_mount_points<F: FileSystem>(fs: &F, policy: MountPolicy) -> (points: Vec<String>)
    ensures
        is_mount_selection(fs, policy, texts(points@)),
{
    let answer = fs.read_to_string(MOUNT_TABLE);
    let ghost given = answer;
    match answer {
        Ok(content) => {
            let parsed = parse_mount_table(content.as_str());
            let all = if policy.dedup {
                dedup_mount_points(&parsed)
            } else {
                parsed
            };
            assert(texts(all@) == mount_candidates(content_text(given), policy));
            if !policy.only_existing {
                assert(texts(all@) == mount_selection(content_text(given), policy, Seq::empty()));
                return all;
            }
            let mut points: Vec<String> = Vec::new();
            let ghost mut answers: Seq<bool> = Seq::empty();
            let mut i: usize = 0;
            while i < all.len()
                invariant
                    i <= all.len(),
                    answers.len() == i,
                    forall|k: int|
                        0 <= k < i ==> is_presence(fs, texts(all@)[k], #[trigger] answers[k]),
                    texts(points@) == kept(texts(all@).take(i as int), answers),
                decreases all.len() - i,
            {
                let ghost before = texts(points@);
                let ghost earlier = answers;
                let at = all[i].as_str();
                let present = fs.path_exists(at);
                proof {
                    assert(texts(all@).take(i + 1).drop_last() =~= texts(all@).take(i as int));
                    assert(answers.push(present).drop_last() =~= answers);
                    answers = answers.push(present);
                    assert(call_ensures(F::path_exists, (fs, at), present));
                    assert(is_presence(fs, texts(all@)[i as int], present));
                    assert forall|k: int| 0 <= k < i + 1 implies is_presence(
                        fs,
                        texts(all@)[k],
                        #[trigger] answers[k],
                    ) by {
                        if k < i {
                            assert(answers[k] == earlier[k]);
                        }
                    }
                }
                if present {
                    points.push(all[i].clone());
                    assert(texts(points@) =~= before.push(all@[i as int]@));
                }
                i += 1;
            }
            proof {
                assert(texts(all@).take(all.len() as int) =~= texts(all@));
                assert(are_presences(fs, mount_candidates(content_text(given), policy), answers));
                assert(texts(points@) == mount_selection(content_text(given), policy, answers));
            }
            points
        },
        Err(_) => {
            let points: Vec<String> = Vec::new();
            proof {
                let none = Seq::<bool>::empty();
                assert(mount_candidates(content_text(given), policy) =~= Seq::<Seq<char>>::empty());
                assert(are_presences(fs, mount_candidates(content_text(given), policy), none));
                assert(texts(points@) =~= mount_selection(content_text(given), policy, none));
            }
            points
        },
    }
}

/// Whether `volumes` is the volume set that the override and the policy
/// give: the pinned set where the override pins one, else the mount points of
/// the system under the policy.
pub open spec fn is_volume_set<F: FileSystem>(
    fs: &F,
    volumes: Seq<Seq<char>>,
    pinned: Option<Seq<char>>,
    policy: MountPolicy,
) -> bool {
    match override_volumes(pinned) {
        Some(set) => volumes == set,
        None => is_mount_selection(fs, policy, volumes),
    }
}

/// The volumes to search. An override that is present and not empty pins the
/// set, and the mount table is not asked; otherwise the set is that of
/// `list_mount_points`.
pub fn list_volumes<F: FileSystem>(fs: &F, environ: &Environment, policy: MountPolicy) -> (volumes:
    Vec<String>)
    ensures
        is_volume_set(fs, texts(volumes@), opt_text(environ.trash_volumes), policy),
{
    let given: Option<&str> = match &environ.trash_volumes {
        Some(value) => Some(value.as_str()),
        None => None,
    };
    assert(opt_str_text(given) == opt_text(environ.trash_volumes));
    match volumes_from_override(given) {
        Some(volumes) => volumes,
        None => list_mount_points(fs, policy),
    }
}

/// The home trash directories that the environment names: one below
/// `XDG_DATA_HOME` if that is set, else one below `HOME` if that is set, else
/// none.
pub open spec fn home_trash_paths(xdg: Option<Seq<char>>, home: Option<Seq<char>>) -> Seq<
    Seq<char>,
> {
    match xdg {
        Some(base) => seq![base + "/Trash"@],
        None => match home {
            Some(base) => seq![base + "/.local/share/Trash"@],
            None => Seq::empty(),
        },
    }
}

/// The home trash directories that the environment names.
pub fn home_trash_dirs_from_environ(environ: &Environment) -> (dirs: Vec<String>)
    ensures
        texts(dirs@) == home_trash_paths(opt_text(environ.xdg_data_home), opt_text(environ.home)),
{
    let mut dirs: Vec<String> = Vec::new();
    match &environ.xdg_data_home {
        Some(base) => {
            let dir = base.clone().concat("/Trash");
            dirs.push(dir);
            assert(texts(dirs@) =~= seq![base@ + "/Trash"@]);
        },
        None => match &environ.home {
            Some(base) => {
                let dir = base.clone().concat("/.local/share/Trash");
                dirs.push(dir);
                assert(texts(dirs@) =~= seq![base@ + "/.local/share/Trash"@]);
            },
            None => {
                assert(texts(dirs@) =~= Seq::<Seq<char>>::empty());
            },
        },
    }
    dirs
}

/// The user id that the environment gives: that of `UID` if it is set and not
/// empty, else `0`.
pub open spec fn uid_of(uid: Option<Seq<char>>) -> Seq<char> {
    match uid {
        Some(id) => if id.len() > 0 {
            id
        } else {
            "0"@
        },
        None => "0"@,
    }
}

/// The user id that the environment gives.
pub fn current_uid(environ: &Environment) -> (uid: String)
    ensures
        uid@ == uid_of(opt_text(environ.uid)),
{
    match &environ.uid {
        Some(id) => {
            if id.as_str().unicode_len() > 0 {
                id.clone()
            } else {
                String::from_str("0")
            }
        },
        None => String::from_str("0"),
    }
}

/// The event of a trash directory that is taken as given: it is found, in the
/// volume that holds its path.
pub open spec fn found_at(path: Seq<char>, mounts: Seq<Seq<char>>, cwd: Option<Seq<char>>) -> EventView {
    EventView {
        kind: EventKind::Found,
        path,
        volume: volume_from(search_start(path, cwd), mounts),
    }
}

/// The events of trash directories that are taken as given.
pub open spec fn given_events(paths: Seq<Seq<char>>, mounts: Seq<Seq<char>>, cwd: Option<Seq<char>>) -> Seq<
    EventView,
> {
    Seq::new(paths.len(), |i: int| found_at(paths[i], mounts, cwd))
}

/// Adds to `out` one event for each of `paths`: the directory is found, in
/// the volume that holds it.
pub fn push_given_dirs(
    paths: &Vec<String>,
    mount_points: &Vec<String>,
    cwd: Option<&str>,
    out: &mut Vec<Event>,
)
    ensures
        event_views(final(out)@) == event_views(old(out)@) + given_events(
            texts(paths@),
            texts(mount_points@),
            opt_str_text(cwd),
        ),
{
    let ghost before = event_views(out@);
    let ghost all = given_events(texts(paths@), texts(mount_points@), opt_str_text(cwd));
    let mut i: usize = 0;
    assert(event_views(out@) =~= before + all.take(0));
    while i < paths.len()
        invariant
            i <= paths.len(),
            all == given_events(texts(paths@), texts(mount_points@), opt_str_text(cwd)),
            event_views(out@) == before + all.take(i as int),
        decreases paths.len() - i,
    {
        let ghost so_far = event_views(out@);
        let volume = volume_of(paths[i].as_str(), mount_points, cwd);
        let event = Event::Found(TrashDir { path: paths[i].clone(), volume });
        out.push(event);
        proof {
            assert(event@ == all[i as int]);
            assert(event_views(out@) =~= so_far.push(event@));
            assert(before + all.take(i + 1) =~= (before + all.take(i as int)).push(all[i as int]));
        }
        i += 1;
    }
    assert(all.take(paths.len() as int) =~= all);
}

/// The events of the given volumes for one user, in the order of the volumes,
/// given what the file system told of each.
pub open spec fn volumes_events(volumes: Seq<Seq<char>>, uid: Seq<char>, facts: Seq<VolumeFacts>) -> Seq<
    EventView,
>
    decreases volumes.len(),
{
    if volumes.len() == 0 || facts.len() != volumes.len() {
        Seq::empty()
    } else {
        volumes_events(volumes.drop_last(), uid, facts.drop_last()) + volume_events(
            volumes.last(),
            uid,
            facts.last(),
        )
    }
}

/// Whether `facts` are, for each of the volumes in turn, what the file system
/// told of the two candidates of the volume for the user.
pub open spec fn are_probes<F: FileSystem>(
    fs: &F,
    volumes: Seq<Seq<char>>,
    uid: Seq<char>,
    facts: Seq<VolumeFacts>,
) -> bool {
    &&& facts.len() == volumes.len()
    &&& forall|k: int|
        0 <= k < facts.len() ==> is_volume_probe(fs, volumes[k], uid, #[trigger] facts[k])
}

/// Adds to `out` the events of the given volumes for one user, asking the
/// file system about the two candidates of each volume in turn.
pub fn scan_volumes<F: FileSystem>(fs: &F, volumes: &Vec<String>, uid: &str, out: &mut Vec<Event>)
    ensures
        exists|facts: Seq<VolumeFacts>|
            are_probes(fs, texts(volumes@), uid@, facts) && event_views(final(out)@)
                == event_views(old(out)@) + #[trigger] volumes_events(texts(volumes@), uid@, facts),
{
    let ghost before = event_views(out@);
    let ghost mut seen: Seq<VolumeFacts> = Seq::empty();
    let mut i: usize = 0;
    assert(event_views(out@) =~= before + volumes_events(texts(volumes@).take(0), uid@, seen));
    while i < volumes.len()
        invariant
            i <= volumes.len(),
            are_probes(fs, texts(volumes@).take(i as int), uid@, seen),
            event_views(out@) == before + volumes_events(texts(volumes@).take(i as int), uid@, seen),
        decreases volumes.len() - i,
    {
        let ghost so_far = event_views(out@);
        let ghost earlier = seen;
        let facts = probe_volume(fs, volumes[i].as_str(), uid);
        scan_top_trash_dir(volumes[i].as_str(), uid, &facts, out);
        proof {
            let next = texts(volumes@).take(i + 1);
            assert(next.drop_last() =~= texts(volumes@).take(i as int));
            assert(seen.push(facts).drop_last() =~= seen);
            assert(next.last() == volumes@[i as int]@);
            assert(before + volumes_events(next, uid@, seen.push(facts)) =~= so_far + volume_events(
                volumes@[i as int]@,
                uid@,
                facts,
            ));
            seen = seen.push(facts);
            assert forall|k: int| 0 <= k < seen.len() implies is_volume_probe(
                fs,
                next[k],
                uid@,
                #[trigger] seen[k],
            ) by {
                if k < i {
                    assert(seen[k] == earlier[k]);
                    assert(next[k] == texts(volumes@).take(i as int)[k]);
                }
            }
        }
        i += 1;
    }
    proof {
        assert(texts(volumes@).take(volumes.len() as int) =~= texts(volumes@));
    }
}

} // verus!
