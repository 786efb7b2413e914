//! The volume that holds a path, and the accounts of the user database.

use vstd::prelude::*;
use crate::errors::CoreError;
use crate::fs::{content_text, FileSystem};
use crate::mounts::{contains_text, opt_str_text};
use crate::paths::{is_absolute, join_chars, joined, lemma_parent_is_shorter, parent_chars, parent_of};
use crate::text::{from_chars, texts, to_chars, CharClass};
use crate::tokens::{lines, split, split_lines, split_on, views};

verus! {

/// The first of `current` and its ancestors, nearest first, that is one of
/// `mounts`; the last ancestor where none is.
pub open spec fn volume_from(current: Seq<char>, mounts: Seq<Seq<char>>) -> Seq<char>
    decreases current.len(),
{
    if mounts.contains(current) {
        current
    } else {
        match parent_of(current) {
            Some(dir) => if dir.len() < current.len() {
                volume_from(dir, mounts)
            } else {
                current
            },
            None => current,
        }
    }
}

/// Where the search for the volume of `path` starts: at `path` if it is
/// absolute, else at `path` below the working directory, if that is known.
pub open spec fn search_start(path: Seq<char>, cwd: Option<Seq<char>>) -> Seq<char> {
    if is_absolute(path) {
        path
    } else {
        match cwd {
            Some(dir) => joined(dir, path),
            None => path,
        }
    }
}

/// The volume that holds `path`: the nearest of the path and its ancestors
/// that is a mount point. A relative path is taken below `cwd`.
pub fn volume_of(path: &str, mount_points: &Vec<String>, cwd: Option<&str>) -> (volume: String)
    ensures
        volume@ == volume_from(search_start(path@, opt_str_text(cwd)), texts(mount_points@)),
{
    let given = to_chars(path);
    let mut current: Vec<char> = if given.len() > 0 && given[0] == '/' {
        given
    } else {
        match cwd {
            Some(dir) => join_chars(&to_chars(dir), &given),
            None => given,
        }
    };
    let ghost start = current@;
    loop
        invariant
            start == search_start(path@, opt_str_text(cwd)),
            volume_from(start, texts(mount_points@)) == volume_from(
                current@,
                texts(mount_points@),
            ),
        decreases current.len(),
    {
        let text = from_chars(&current);
        if contains_text(mount_points, &text) {
            return text;
        }
        match parent_chars(&current) {
            Some(dir) => {
                proof {
                    lemma_parent_is_shorter(current@);
                }
                current = dir;
            },
            None => {
                return text;
            },
        }
    }
}

/// One account of the user database.
#[derive(Debug, Clone)]
pub struct UserAccount {
    pub uid: String,
    pub home: String,
}

/// The user id and the home directory that a line of the user database
/// gives: its third and its sixth field, where it has seven fields or more.
pub open spec fn account_of(line: Seq<char>) -> Option<(Seq<char>, Seq<char>)> {
    let f = split(line, CharClass::Is(':').when(true));
    if f.len() >= 7 {
        Some((f[2], f[5]))
    } else {
        None
    }
}

/// The accounts that the given lines define, in their order.
pub open spec fn accounts_of(table: Seq<Seq<char>>) -> Seq<(Seq<char>, Seq<char>)>
    decreases table.len(),
{
    if table.len() == 0 {
        Seq::empty()
    } else {
        match account_of(table.last()) {
            Some(account) => accounts_of(table.drop_last()).push(account),
            None => accounts_of(table.drop_last()),
        }
    }
}

/// The user id and home directory of each account.
pub open spec fn account_views(accounts: Seq<UserAccount>) -> Seq<(Seq<char>, Seq<char>)> {
    Seq::new(accounts.len(), |i: int| (accounts[i].uid@, accounts[i].home@))
}

/// The accounts of a user database, in its order.
pub fn parse_user_database(content: &str) -> (accounts: Vec<UserAccount>)
    ensures
        account_views(accounts@) == accounts_of(lines(content@)),
{
    let table = split_lines(&to_chars(content));
    let mut accounts: Vec<UserAccount> = Vec::new();
    let mut i: usize = 0;
    while i < table.len()
        invariant
            i <= table.len(),
            account_views(accounts@) == accounts_of(views(table@).take(i as int)),
        decreases table.len() - i,
    {
        let ghost before = account_views(accounts@);
        proof {
            assert(views(table@).take(i + 1).drop_last() =~= views(table@).take(i as int));
        }
        let f = split_on(&table[i], CharClass::Is(':'));
        assert(views(f@) == split(views(table@)[i as int], CharClass::Is(':').when(true)));
        if f.len() >= 7 {
            let account = UserAccount { uid: from_chars(&f[2]), home: from_chars(&f[5]) };
            assert(views(f@)[2] == f@[2]@ && views(f@)[5] == f@[5]@);
            accounts.push(account);
            assert(account_views(accounts@) =~= before.push((f@[2]@, f@[5]@)));
        }
        i += 1;
    }
    assert(views(table@).take(table.len() as int) =~= views(table@));
    accounts
}

/// Where the user database is kept.
pub const USER_DATABASE: &'static str = "/etc/passwd";

/// Whether `accounts` are the accounts of the system: those that an answer
/// of the file system to the request to read the user database defines; none
/// where that answer is a failure.
pub open spec fn is_user_database<F: FileSystem>(
    fs: &F,
    accounts: Seq<(Seq<char>, Seq<char>)>,
) -> bool {
    exists|answer: Result<String, CoreError>|
        #[trigger] call_ensures(F::read_to_string, (fs, USER_DATABASE), answer) && accounts
            == match content_text(answer) {
            Some(text) => accounts_of(lines(text)),
            None => Seq::empty(),
        }
}

/// The accounts of the system. A database that cannot be read has none.
pub fn list_users<F: FileSystem>(fs: &F) -> (accounts: Vec<UserAccount>)
    ensures
        is_user_database(fs, account_views(accounts@)),
{
    let answer = fs.read_to_string(USER_DATABASE);
    let ghost given = answer;
    match answer {
        Ok(content) => parse_user_database(content.as_str()),
        Err(_) => {
            let accounts: Vec<UserAccount> = Vec::new();
            assert(account_views(accounts@) =~= Seq::<(Seq<char>, Seq<char>)>::empty());
            assert(call_ensures(F::read_to_string, (fs, USER_DATABASE), given));
            accounts
        },
    }
}

} // verus!
