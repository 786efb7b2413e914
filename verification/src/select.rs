//! The trash directories of a run: those of the current user, those of every
//! account, or those that the caller names.

use vstd::prelude::*;
use crate::decimal::{decimal, decimal_chars};
use crate::discover::{are_probes, current_uid, found_at, given_events, home_trash_dirs_from_environ, home_trash_paths, is_volume_set, list_volumes, push_given_dirs, scan_volumes, uid_of, volumes_events, Environment, MountPolicy};
use crate::fs::FileSystem;
use crate::locate::{alt_trash_path, directory, event_views, top_dir_verdict, top_trash_path, volume_events, Event, EventKind, EventView, TrashDir, Verdict, VolumeFacts};
use crate::mounts::opt_str_text;
use crate::paths::{join_path, joined, opt_text};
use crate::text::{from_chars, texts};
use crate::volumes::{account_views, is_user_database, list_users, UserAccount};

verus! {

/// Where the home trash of an account lies below its home directory.
pub const HOME_TRASH_SUBDIR: &'static str = ".local/share/Trash";

/// The events of the current user: the home trash directories first, each
/// taken as given, then the events of the volumes.
pub open spec fn current_user_events(
    home: Seq<Seq<char>>,
    volumes: Seq<Seq<char>>,
    uid: Seq<char>,
    mounts: Seq<Seq<char>>,
    cwd: Option<Seq<char>>,
    facts: Seq<VolumeFacts>,
) -> Seq<EventView> {
    given_events(home, mounts, cwd) + volumes_events(volumes, uid, facts)
}

/// The events of the current user on the given volumes.
pub fn scan_trash_dirs_for_current_user<F: FileSystem>(
    fs: &F,
    environ: &Environment,
    volumes: &Vec<String>,
    mount_points: &Vec<String>,
    cwd: Option<&str>,
) -> (events: Vec<Event>)
    ensures
        exists|facts: Seq<VolumeFacts>|
            are_probes(fs, texts(volumes@), uid_of(opt_text(environ.uid)), facts) && event_views(
                events@,
            ) == #[trigger] current_user_events(
                home_trash_paths(opt_text(environ.xdg_data_home), opt_text(environ.home)),
                texts(volumes@),
                uid_of(opt_text(environ.uid)),
                texts(mount_points@),
                opt_str_text(cwd),
                facts,
            ),
{
    let mut events: Vec<Event> = Vec::new();
    let home = home_trash_dirs_from_environ(environ);
    push_given_dirs(&home, mount_points, cwd, &mut events);
    let ghost first = event_views(events@);
    assert(first =~= given_events(texts(home@), texts(mount_points@), opt_str_text(cwd)));
    let uid = current_uid(environ);
    scan_volumes(fs, volumes, uid.as_str(), &mut events);
    proof {
        let facts = choose|facts: Seq<VolumeFacts>|
            are_probes(fs, texts(volumes@), uid@, facts) && event_views(events@) == first
                + #[trigger] volumes_events(texts(volumes@), uid@, facts);
        assert(are_probes(fs, texts(volumes@), uid_of(opt_text(environ.uid)), facts)
            && event_views(events@) == current_user_events(
            home_trash_paths(opt_text(environ.xdg_data_home), opt_text(environ.home)),
            texts(volumes@),
            uid_of(opt_text(environ.uid)),
            texts(mount_points@),
            opt_str_text(cwd),
            facts,
        ));
    }
    events
}

/// The events of one account: its home trash, taken as given, then the
/// events of the volumes for its user id.
pub open spec fn account_events(
    account: (Seq<char>, Seq<char>),
    volumes: Seq<Seq<char>>,
    mounts: Seq<Seq<char>>,
    cwd: Option<Seq<char>>,
    facts: Seq<VolumeFacts>,
) -> Seq<EventView> {
    seq![found_at(joined(account.1, HOME_TRASH_SUBDIR@), mounts, cwd)] + volumes_events(
        volumes,
        account.0,
        facts,
    )
}

/// The events of the given accounts, in their order.
pub open spec fn accounts_events(
    accounts: Seq<(Seq<char>, Seq<char>)>,
    volumes: Seq<Seq<char>>,
    mounts: Seq<Seq<char>>,
    cwd: Option<Seq<char>>,
    facts: Seq<Seq<VolumeFacts>>,
) -> Seq<EventView>
    decreases accounts.len(),
{
    if accounts.len() == 0 || facts.len() != accounts.len() {
        Seq::empty()
    } else {
        accounts_events(accounts.drop_last(), volumes, mounts, cwd, facts.drop_last())
            + account_events(accounts.last(), volumes, mounts, cwd, facts.last())
    }
}

/// Whether `facts` are, for each account in turn, what the file system told
/// of the candidates of each volume for the user of the account.
pub open spec fn are_account_probes<F: FileSystem>(
    fs: &F,
    accounts: Seq<(Seq<char>, Seq<char>)>,
    volumes: Seq<Seq<char>>,
    facts: Seq<Seq<VolumeFacts>>,
) -> bool {
    &&& facts.len() == accounts.len()
    &&& forall|a: int|
        0 <= a < accounts.len() ==> are_probes(fs, volumes, accounts[a].0, #[trigger] facts[a])
}

/// The events of the given accounts on the given volumes.
pub fn scan_accounts<F: FileSystem>(
    fs: &F,
    accounts: &Vec<UserAccount>,
    volumes: &Vec<String>,
    mount_points: &Vec<String>,
    cwd: Option<&str>,
) -> (events: Vec<Event>)
    ensures
        exists|facts: Seq<Seq<VolumeFacts>>|
            are_account_probes(fs, account_views(accounts@), texts(volumes@), facts)
                && event_views(events@) == #[trigger] accounts_events(
                account_views(accounts@),
                texts(volumes@),
                texts(mount_points@),
                opt_str_text(cwd),
                facts,
            ),
{
    let mut events: Vec<Event> = Vec::new();
    let ghost mut seen: Seq<Seq<VolumeFacts>> = Seq::empty();
    let ghost mounts = texts(mount_points@);
    let ghost dir = opt_str_text(cwd);
    let mut i: usize = 0;
    assert(event_views(events@) =~= accounts_events(
        account_views(accounts@).take(0),
        texts(volumes@),
        mounts,
        dir,
        seen,
    ));
    while i < accounts.len()
        invariant
            i <= accounts.len(),
            mounts == texts(mount_points@),
            dir == opt_str_text(cwd),
            are_account_probes(fs, account_views(accounts@).take(i as int), texts(volumes@), seen),
            event_views(events@) == accounts_events(
                account_views(accounts@).take(i as int),
                texts(volumes@),
                mounts,
                dir,
                seen,
            ),
        decreases accounts.len() - i,
    {
        let ghost so_far = event_views(events@);
        let ghost earlier = seen;
        let mut home: Vec<String> = Vec::new();
        home.push(join_path(accounts[i].home.as_str(), HOME_TRASH_SUBDIR));
        push_given_dirs(&home, mount_points, cwd, &mut events);
        let ghost with_home = event_views(events@);
        scan_volumes(fs, volumes, accounts[i].uid.as_str(), &mut events);
        proof {
            let account = account_views(accounts@)[i as int];
            let facts = choose|facts: Seq<VolumeFacts>|
                are_probes(fs, texts(volumes@), accounts@[i as int].uid@, facts) && event_views(
                    events@,
                ) == with_home + #[trigger] volumes_events(
                    texts(volumes@),
                    accounts@[i as int].uid@,
                    facts,
                );
            assert(given_events(texts(home@), mounts, dir) =~= seq![
                found_at(joined(account.1, HOME_TRASH_SUBDIR@), mounts, dir),
            ]);
            let next = account_views(accounts@).take(i + 1);
            assert(next.drop_last() =~= account_views(accounts@).take(i as int));
            assert(next.last() == account);
            assert(seen.push(facts).drop_last() =~= seen);
            assert(event_views(events@) =~= so_far + account_events(
                account,
                texts(volumes@),
                mounts,
                dir,
                facts,
            ));
            seen = seen.push(facts);
            assert forall|a: int| 0 <= a < next.len() implies are_probes(
                fs,
                texts(volumes@),
                next[a].0,
                #[trigger] seen[a],
            ) by {
                if a < i {
                    assert(seen[a] == earlier[a]);
                    assert(next[a] == account_views(accounts@).take(i as int)[a]);
                }
            }
        }
        i += 1;
    }
    proof {
        assert(account_views(accounts@).take(accounts.len() as int) =~= account_views(accounts@));
    }
    events
}

/// Whether `events` are the events of all users on the given volumes: for
/// the accounts of the system, what the rules make of what the file system
/// told of the candidates of each volume for each account.
pub open spec fn are_all_users_events<F: FileSystem>(
    fs: &F,
    volumes: Seq<Seq<char>>,
    mounts: Seq<Seq<char>>,
    cwd: Option<Seq<char>>,
    events: Seq<EventView>,
) -> bool {
    exists|accounts: Seq<(Seq<char>, Seq<char>)>, facts: Seq<Seq<VolumeFacts>>|
        is_user_database(fs, accounts) && are_account_probes(fs, accounts, volumes, facts)
            && events == #[trigger] accounts_events(accounts, volumes, mounts, cwd, facts)
}

/// The events of every account of the user database on the given volumes.
pub fn scan_all_users_volumes<F: FileSystem>(
    fs: &F,
    volumes: &Vec<String>,
    mount_points: &Vec<String>,
    cwd: Option<&str>,
) -> (events: Vec<Event>)
    ensures
        are_all_users_events(
            fs,
            texts(volumes@),
            texts(mount_points@),
            opt_str_text(cwd),
            event_views(events@),
        ),
{
    let accounts = list_users(fs);
    let events = scan_accounts(fs, &accounts, volumes, mount_points, cwd);
    proof {
        let facts = choose|facts: Seq<Seq<VolumeFacts>>|
            are_account_probes(fs, account_views(accounts@), texts(volumes@), facts)
                && event_views(events@) == #[trigger] accounts_events(
                account_views(accounts@),
                texts(volumes@),
                texts(mount_points@),
                opt_str_text(cwd),
                facts,
            );
        assert(is_user_database(fs, account_views(accounts@)) && are_account_probes(
            fs,
            account_views(accounts@),
            texts(volumes@),
            facts,
        ) && event_views(events@) == accounts_events(
            account_views(accounts@),
            texts(volumes@),
            texts(mount_points@),
            opt_str_text(cwd),
            facts,
        ));
    }
    events
}

/// What a run looks at.
#[derive(Debug, Clone)]
pub struct Selection {
    /// Look at the trash directories of every account.
    pub all_users: bool,
    /// The trash directories that the caller names; none to discover them.
    pub trash_dirs: Vec<String>,
}

/// Whether `events` are the events of the current user: the home trash
/// directories, taken as given, then what the rules make of what the file
/// system told of the candidates of each volume of the volume set.
pub open spec fn are_current_user_events<F: FileSystem>(
    fs: &F,
    environ: Environment,
    mounts: Seq<Seq<char>>,
    cwd: Option<Seq<char>>,
    policy: MountPolicy,
    events: Seq<EventView>,
) -> bool {
    exists|volumes: Seq<Seq<char>>, facts: Seq<VolumeFacts>|
        is_volume_set(fs, volumes, opt_text(environ.trash_volumes), policy) && are_probes(
            fs,
            volumes,
            uid_of(opt_text(environ.uid)),
            facts,
        ) && events == #[trigger] current_user_events(
            home_trash_paths(opt_text(environ.xdg_data_home), opt_text(environ.home)),
            volumes,
            uid_of(opt_text(environ.uid)),
            mounts,
            cwd,
            facts,
        )
}

/// Whether `events` are the events of a run. Trash directories that the
/// caller names are taken as given, each in the volume that holds it; without
/// them the events are those of the current user; for all users, those of
/// every account on the volume set.
pub open spec fn is_selection<F: FileSystem>(
    fs: &F,
    all_users: bool,
    named: Seq<Seq<char>>,
    environ: Environment,
    mounts: Seq<Seq<char>>,
    cwd: Option<Seq<char>>,
    policy: MountPolicy,
    events: Seq<EventView>,
) -> bool {
    if all_users {
        exists|volumes: Seq<Seq<char>>|
            is_volume_set(fs, volumes, opt_text(environ.trash_volumes), policy)
                && #[trigger] are_all_users_events(fs, volumes, mounts, cwd, events)
    } else if named.len() > 0 {
        events == given_events(named, mounts, cwd)
    } else {
        are_current_user_events(fs, environ, mounts, cwd, policy, events)
    }
}

/// The events of a run. Trash directories that the caller names are taken as
/// given, each in the volume that holds it, and nothing is discovered;
/// without them the current user's directories are discovered on the volume
/// set; for all users, those of every account.
pub fn select_trash_dirs<F: FileSystem>(
    fs: &F,
    selection: &Selection,
    environ: &Environment,
    mount_points: &Vec<String>,
    cwd: Option<&str>,
    policy: MountPolicy,
) -> (events: Vec<Event>)
    ensures
        is_selection(
            fs,
            selection.all_users,
            texts(selection.trash_dirs@),
            *environ,
            texts(mount_points@),
            opt_str_text(cwd),
            policy,
            event_views(events@),
        ),
{
    let volumes = list_volumes(fs, environ, policy);
    if selection.all_users {
        let events = scan_all_users_volumes(fs, &volumes, mount_points, cwd);
        assert(is_volume_set(fs, texts(volumes@), opt_text(environ.trash_volumes), policy)
            && are_all_users_events(
            fs,
            texts(volumes@),
            texts(mount_points@),
            opt_str_text(cwd),
            event_views(events@),
        ));
        return events;
    }
    if selection.trash_dirs.len() == 0 {
        let events = scan_trash_dirs_for_current_user(fs, environ, &volumes, mount_points, cwd);
        proof {
            let facts = choose|facts: Seq<VolumeFacts>|
                are_probes(fs, texts(volumes@), uid_of(opt_text(environ.uid)), facts)
                    && event_views(events@) == #[trigger] current_user_events(
                    home_trash_paths(opt_text(environ.xdg_data_home), opt_text(environ.home)),
                    texts(volumes@),
                    uid_of(opt_text(environ.uid)),
                    texts(mount_points@),
                    opt_str_text(cwd),
                    facts,
                );
            assert(is_volume_set(fs, texts(volumes@), opt_text(environ.trash_volumes), policy)
                && are_probes(fs, texts(volumes@), uid_of(opt_text(environ.uid)), facts)
                && event_views(events@) == current_user_events(
                home_trash_paths(opt_text(environ.xdg_data_home), opt_text(environ.home)),
                texts(volumes@),
                uid_of(opt_text(environ.uid)),
                texts(mount_points@),
                opt_str_text(cwd),
                facts,
            ));
        }
        events
    } else {
        let mut events: Vec<Event> = Vec::new();
        push_given_dirs(&selection.trash_dirs, mount_points, cwd, &mut events);
        assert(event_views(events@) =~= given_events(
            texts(selection.trash_dirs@),
            texts(mount_points@),
            opt_str_text(cwd),
        ));
        events
    }
}

/// A trash directory as a pair of its path and its volume.
pub open spec fn dir_views(dirs: Seq<TrashDir>) -> Seq<(Seq<char>, Seq<char>)> {
    Seq::new(dirs.len(), |i: int| (dirs[i].path@, dirs[i].volume@))
}

/// The directories that the events report as found, in their order.
pub open spec fn found_dirs(events: Seq<EventView>) -> Seq<(Seq<char>, Seq<char>)>
    decreases events.len(),
{
    if events.len() == 0 {
        Seq::empty()
    } else if events.last().kind == EventKind::Found {
        found_dirs(events.drop_last()).push((events.last().path, events.last().volume))
    } else {
        found_dirs(events.drop_last())
    }
}

/// The home trash directories as directories of the root volume.
pub open spec fn home_dirs(paths: Seq<Seq<char>>) -> Seq<(Seq<char>, Seq<char>)> {
    Seq::new(paths.len(), |i: int| (paths[i], "/"@))
}

/// The directories that the events report as found; skips are dropped.
pub fn found_trash_dirs(events: &Vec<Event>) -> (dirs: Vec<TrashDir>)
    ensures
        dir_views(dirs@) == found_dirs(event_views(events@)),
{
    let mut dirs: Vec<TrashDir> = Vec::new();
    let mut i: usize = 0;
    while i < events.len()
        invariant
            i <= events.len(),
            dir_views(dirs@) == found_dirs(event_views(events@).take(i as int)),
        decreases events.len() - i,
    {
        let ghost before = dir_views(dirs@);
        proof {
            assert(event_views(events@).take(i + 1).drop_last() =~= event_views(events@).take(
                i as int,
            ));
        }
        match &events[i] {
            Event::Found(dir) => {
                let copy = TrashDir { path: dir.path.clone(), volume: dir.volume.clone() };
                dirs.push(copy);
                assert(dir_views(dirs@) =~= before.push((dir.path@, dir.volume@)));
            },
            _ => {},
        }
        i += 1;
    }
    assert(event_views(events@).take(events.len() as int) =~= event_views(events@));
    dirs
}

/// Whether `dirs` are the trash directories that removal works on for the
/// user `uid`: the home trash, as a directory of the root volume, then the
/// directories that the rules find from what the file system told of the
/// candidates of each volume of the volume set.
pub open spec fn is_collection<F: FileSystem>(
    fs: &F,
    environ: Environment,
    uid: nat,
    policy: MountPolicy,
    dirs: Seq<(Seq<char>, Seq<char>)>,
) -> bool {
    exists|volumes: Seq<Seq<char>>, facts: Seq<VolumeFacts>|
        is_volume_set(fs, volumes, opt_text(environ.trash_volumes), policy) && are_probes(
            fs,
            volumes,
            decimal(uid),
            facts,
        ) && dirs == home_dirs(
            home_trash_paths(opt_text(environ.xdg_data_home), opt_text(environ.home)),
        ) + found_dirs(#[trigger] volumes_events(volumes, decimal(uid), facts))
}

/// The trash directories that removal works on for the user `uid`: the home
/// trash, as a directory of the root volume, then the directories found on
/// the volume set. Candidates that fail a check are left out.
pub fn collect_trash_dirs<F: FileSystem>(
    fs: &F,
    environ: &Environment,
    uid: u32,
    policy: MountPolicy,
) -> (dirs: Vec<TrashDir>)
    ensures
        is_collection(fs, *environ, uid as nat, policy, dir_views(dirs@)),
{
    let mut dirs: Vec<TrashDir> = Vec::new();
    let home = home_trash_dirs_from_environ(environ);
    let mut i: usize = 0;
    while i < home.len()
        invariant
            i <= home.len(),
            dir_views(dirs@) == home_dirs(texts(home@)).take(i as int),
        decreases home.len() - i,
    {
        let ghost before = dir_views(dirs@);
        let dir = TrashDir { path: home[i].clone(), volume: "/".to_owned() };
        dirs.push(dir);
        assert(dir_views(dirs@) =~= before.push((home@[i as int]@, "/"@)));
        i += 1;
    }
    assert(home_dirs(texts(home@)).take(home.len() as int) =~= home_dirs(texts(home@)));
    let volumes = list_volumes(fs, environ, policy);
    let uid_text = from_chars(&decimal_chars(uid as u64));
    let mut events: Vec<Event> = Vec::new();
    scan_volumes(fs, &volumes, uid_text.as_str(), &mut events);
    let mut found = found_trash_dirs(&events);
    let ghost first = dir_views(dirs@);
    let ghost second = dir_views(found@);
    dirs.append(&mut found);
    proof {
        let facts = choose|facts: Seq<VolumeFacts>|
            are_probes(fs, texts(volumes@), uid_text@, facts) && event_views(events@)
                == event_views(Seq::<Event>::empty()) + #[trigger] volumes_events(
                texts(volumes@),
                uid_text@,
                facts,
            );
        assert(event_views(events@) =~= volumes_events(texts(volumes@), uid_text@, facts));
        assert(dir_views(dirs@) =~= first + second);
        assert(is_volume_set(fs, texts(volumes@), opt_text(environ.trash_volumes), policy)
            && are_probes(fs, texts(volumes@), decimal(uid as nat), facts) && dir_views(dirs@)
            == home_dirs(
            home_trash_paths(opt_text(environ.xdg_data_home), opt_text(environ.home)),
        ) + found_dirs(volumes_events(texts(volumes@), decimal(uid as nat), facts)));
    }
    dirs
}

/// The directories found among two runs of events are those found among
/// the first, then those found among the second.
pub proof fn lemma_found_dirs_of_both(first: Seq<EventView>, second: Seq<EventView>)
    ensures
        found_dirs(first + second) == found_dirs(first) + found_dirs(second),
    decreases second.len(),
{
    if second.len() == 0 {
        assert(first + second =~= first);
        assert(found_dirs(first) + found_dirs(second) =~= found_dirs(first));
    } else {
        let init = second.drop_last();
        lemma_found_dirs_of_both(first, init);
        assert((first + second).drop_last() =~= first + init);
        assert((first + second).last() == second.last());
        if second.last().kind == EventKind::Found {
            assert(found_dirs(first + second) =~= found_dirs(first) + found_dirs(second));
        }
    }
}

/// Whether the candidates of a volume yield the directory: as the top-level
/// candidate, which the checks find, or as the alternate candidate, which is
/// a directory.
pub open spec fn yields(
    volume: Seq<char>,
    uid: Seq<char>,
    facts: VolumeFacts,
    dir: (Seq<char>, Seq<char>),
) -> bool {
    ||| dir == (top_trash_path(volume, uid), volume) && top_dir_verdict(
        top_trash_path(volume, uid),
        facts.top,
    ) == Verdict::Found
    ||| dir == (alt_trash_path(volume, uid), volume) && directory(facts.alt)
}

/// The directories found on one volume are those that its candidates yield.
pub proof fn lemma_found_dirs_of_volume(
    volume: Seq<char>,
    uid: Seq<char>,
    facts: VolumeFacts,
    dir: (Seq<char>, Seq<char>),
)
    ensures
        found_dirs(volume_events(volume, uid, facts)).contains(dir) <==> yields(
            volume,
            uid,
            facts,
            dir,
        ),
{
    reveal_with_fuel(found_dirs, 3);
    let events = volume_events(volume, uid, facts);
    let found = found_dirs(events);
    if events.len() == 2 {
        assert(events.drop_last().len() == 1);
        assert(events.drop_last().drop_last().len() == 0);
    }
    if yields(volume, uid, facts, dir) {
        if directory(facts.alt) && dir == (alt_trash_path(volume, uid), volume) {
            assert(found.last() == dir);
        } else {
            assert(found[0] == dir);
        }
    }
}

/// The directories found on the volumes are those that the candidates of one
/// of the volumes yield: each candidate that passes is among them, and no
/// other directory is.
pub proof fn lemma_found_dirs_of_volumes(
    volumes: Seq<Seq<char>>,
    uid: Seq<char>,
    facts: Seq<VolumeFacts>,
    dir: (Seq<char>, Seq<char>),
)
    requires
        facts.len() == volumes.len(),
    ensures
        found_dirs(volumes_events(volumes, uid, facts)).contains(dir) <==> exists|k: int|
            0 <= k < volumes.len() && #[trigger] yields(volumes[k], uid, facts[k], dir),
    decreases volumes.len(),
{
    if volumes.len() > 0 {
        let init = volumes.drop_last();
        let rest = facts.drop_last();
        let before = found_dirs(volumes_events(init, uid, rest));
        let here = found_dirs(volume_events(volumes.last(), uid, facts.last()));
        lemma_found_dirs_of_volumes(init, uid, rest, dir);
        lemma_found_dirs_of_volume(volumes.last(), uid, facts.last(), dir);
        lemma_found_dirs_of_both(
            volumes_events(init, uid, rest),
            volume_events(volumes.last(), uid, facts.last()),
        );
        let all = before + here;
        if all.contains(dir) {
            let i = choose|i: int| 0 <= i < all.len() && all[i] == dir;
            if i < before.len() {
                assert(before[i] == dir);
                let k = choose|k: int|
                    0 <= k < init.len() && #[trigger] yields(init[k], uid, rest[k], dir);
                assert(yields(volumes[k], uid, facts[k], dir));
            } else {
                assert(here[i - before.len()] == dir);
                assert(yields(volumes[volumes.len() - 1], uid, facts[volumes.len() - 1], dir));
            }
        }
        if exists|k: int| 0 <= k < volumes.len() && #[trigger] yields(volumes[k], uid, facts[k], dir) {
            let k = choose|k: int|
                0 <= k < volumes.len() && #[trigger] yields(volumes[k], uid, facts[k], dir);
            if k < init.len() {
                assert(yields(init[k], uid, rest[k], dir));
                let i = choose|i: int| 0 <= i < before.len() && before[i] == dir;
                assert(all[i] == dir);
            } else {
                let i = choose|i: int| 0 <= i < here.len() && here[i] == dir;
                assert(all[before.len() + i] == dir);
            }
        }
    }
}

} // verus!
