//! Paths as text.
//!
//! A path is a string whose components are separated by `/`. The functions
//! here take a path apart and put paths together by the rules that
//! `std::path::Path` follows on Unix: repeated separators count once, a
//! trailing separator and a `.` component after the first are ignored.

use vstd::prelude::*;
use crate::text::{from_chars, last_match, lemma_last_match, lemma_last_match_is, push_all, scan_back, slice, to_chars, CharClass};

verus! {

/// The text of an optional string.
pub open spec fn opt_text(o: Option<String>) -> Option<Seq<char>> {
    match o {
        Some(s) => Some(s@),
        None => None,
    }
}

/// Whether the path starts at the root.
pub open spec fn is_absolute(path: Seq<char>) -> bool {
    path.len() > 0 && path[0] == '/'
}

/// `path` without trailing separators and trailing `.` components.
pub open spec fn normalize_end(path: Seq<char>) -> Seq<char>
    decreases path.len(),
{
    if path.len() > 0 && path.last() == '/' {
        normalize_end(path.drop_last())
    } else if path.len() >= 2 && path.last() == '.' && path[path.len() - 2] == '/' {
        normalize_end(path.drop_last())
    } else {
        path
    }
}

/// The text after the last separator of `path`; all of `path` when it holds
/// none.
pub open spec fn last_segment(path: Seq<char>) -> Seq<char> {
    path.skip(last_match(path, CharClass::Is('/').when(true)) + 1)
}

/// The final component of `path`. There is none when the path is empty, is
/// the root, or ends in `.` or `..`.
pub open spec fn file_name_of(path: Seq<char>) -> Option<Seq<char>> {
    let name = last_segment(normalize_end(path));
    if name.len() == 0 || name == seq!['.'] || name == seq!['.', '.'] {
        None
    } else {
        Some(name)
    }
}

/// `path` without its final component. There is none when the path is empty
/// or is the root.
pub open spec fn parent_of(path: Seq<char>) -> Option<Seq<char>> {
    let whole = normalize_end(path);
    let cut = last_match(whole, CharClass::Is('/').when(true));
    if whole.len() == 0 {
        None
    } else if cut < 0 {
        Some(Seq::empty())
    } else {
        let head = normalize_end(whole.take(cut));
        if head.len() == 0 {
            Some(seq!['/'])
        } else {
            Some(head)
        }
    }
}

/// `base` extended by `component`. An absolute component replaces the base;
/// otherwise a separator is put between the two unless the base is empty or
/// ends with one.
pub open spec fn joined(base: Seq<char>, component: Seq<char>) -> Seq<char> {
    if is_absolute(component) {
        component
    } else if base.len() == 0 || base.last() == '/' {
        base + component
    } else {
        base + seq!['/'] + component
    }
}

/// `normalize_end` only drops characters from the end of a path.
pub proof fn lemma_normalize_end_prefix(path: Seq<char>)
    ensures
        normalize_end(path).is_prefix_of(path),
    decreases path.len(),
{
    if path.len() > 0 && path.last() == '/' {
        lemma_normalize_end_prefix(path.drop_last());
    } else if path.len() >= 2 && path.last() == '.' && path[path.len() - 2] == '/' {
        lemma_normalize_end_prefix(path.drop_last());
    }
}

/// What `normalize_end` leaves does not end with a separator.
pub proof fn lemma_normalize_end_last(path: Seq<char>)
    ensures
        normalize_end(path).len() > 0 ==> normalize_end(path).last() != '/',
    decreases path.len(),
{
    if path.len() > 0 && path.last() == '/' {
        lemma_normalize_end_last(path.drop_last());
    } else if path.len() >= 2 && path.last() == '.' && path[path.len() - 2] == '/' {
        lemma_normalize_end_last(path.drop_last());
    }
}

/// The parent of a path is shorter than the path, so a walk from a path up
/// its ancestors ends.
pub proof fn lemma_parent_is_shorter(path: Seq<char>)
    ensures
        parent_of(path) matches Some(dir) ==> dir.len() < path.len(),
{
    let whole = normalize_end(path);
    let cut = last_match(whole, CharClass::Is('/').when(true));
    lemma_normalize_end_prefix(path);
    lemma_normalize_end_last(path);
    lemma_last_match(whole, CharClass::Is('/').when(true));
    if whole.len() > 0 && cut >= 0 {
        lemma_normalize_end_prefix(whole.take(cut));
    }
}

/// The separator that follows `dir` is the last one of `dir/entry` when the
/// entry holds none.
pub proof fn lemma_last_separator(dir: Seq<char>, entry: Seq<char>)
    requires
        !entry.contains('/'),
    ensures
        last_match(dir + seq!['/'] + entry, CharClass::Is('/').when(true)) == dir.len(),
{
    let path = dir + seq!['/'] + entry;
    assert forall|i: int| dir.len() < i < path.len() implies !CharClass::Is('/').when(true)(
        #[trigger] path[i],
    ) by {
        assert(path[i] == entry[i - dir.len() - 1]);
        assert(entry.contains(entry[i - dir.len() - 1]));
    }
    assert(path[dir.len() as int] == '/');
    lemma_last_match_is(path, CharClass::Is('/').when(true), dir.len() as int);
}

/// Length of `normalize_end(path)`.
pub fn normalized_len(path: &Vec<char>) -> (end: usize)
    ensures
        end <= path.len(),
        path@.take(end as int) == normalize_end(path@),
{
    let mut end: usize = path.len();
    assert(path@.take(end as int) =~= path@);
    loop
        invariant
            end <= path.len(),
            normalize_end(path@.take(end as int)) == normalize_end(path@),
        ensures
            end <= path.len(),
            path@.take(end as int) == normalize_end(path@),
        decreases end,
    {
        let ghost cur = path@.take(end as int);
        if end > 0 && path[end - 1] == '/' {
            assert(cur.drop_last() =~= path@.take(end - 1));
            end -= 1;
        } else if end >= 2 && path[end - 1] == '.' && path[end - 2] == '/' {
            assert(cur.drop_last() =~= path@.take(end - 1));
            end -= 1;
        } else {
            break ;
        }
    }
    end
}

/// The final component of a path, given as characters.
pub fn file_name_chars(path: &Vec<char>) -> (name: Option<Vec<char>>)
    ensures
        match name {
            Some(n) => file_name_of(path@) == Some(n@),
            None => file_name_of(path@) is None,
        },
{
    let end = normalized_len(path);
    let whole = slice(path, 0, end);
    let from = scan_back(&whole, CharClass::Is('/'), true);
    let name = slice(&whole, from, whole.len());
    assert(name@ =~= last_segment(normalize_end(path@)));
    if name.len() == 0 {
        None
    } else if name.len() == 1 && name[0] == '.' {
        assert(name@ =~= seq!['.']);
        None
    } else if name.len() == 2 && name[0] == '.' && name[1] == '.' {
        assert(name@ =~= seq!['.', '.']);
        None
    } else {
        proof {
            if name@ == seq!['.'] {
                assert(name@.len() == 1 && name@[0] == '.');
            }
            if name@ == seq!['.', '.'] {
                assert(name@.len() == 2 && name@[0] == '.' && name@[1] == '.');
            }
        }
        Some(name)
    }
}

/// A path without its final component, given as characters.
pub fn parent_chars(path: &Vec<char>) -> (parent: Option<Vec<char>>)
    ensures
        match parent {
            Some(p) => parent_of(path@) == Some(p@),
            None => parent_of(path@) is None,
        },
{
    let end = normalized_len(path);
    let whole = slice(path, 0, end);
    if whole.len() == 0 {
        return None;
    }
    let after = scan_back(&whole, CharClass::Is('/'), true);
    if after == 0 {
        return Some(Vec::new());
    }
    let front = slice(&whole, 0, after - 1);
    let head_len = normalized_len(&front);
    if head_len == 0 {
        let mut root: Vec<char> = Vec::new();
        root.push('/');
        assert(root@ =~= seq!['/']);
        Some(root)
    } else {
        Some(slice(&front, 0, head_len))
    }
}

/// `base` extended by `component`, both given as characters.
pub fn join_chars(base: &Vec<char>, component: &Vec<char>) -> (out: Vec<char>)
    ensures
        out@ == joined(base@, component@),
{
    let mut out: Vec<char> = Vec::new();
    if component.len() > 0 && component[0] == '/' {
        push_all(&mut out, component);
        assert(out@ =~= component@);
    } else {
        push_all(&mut out, base);
        if base.len() > 0 && base[base.len() - 1] != '/' {
            out.push('/');
        }
        push_all(&mut out, component);
        assert(out@ =~= joined(base@, component@));
    }
    out
}

/// The final component of `path`, as `Path::file_name` gives it.
pub fn file_name(path: &str) -> (name: Option<String>)
    ensures
        opt_text(name) == file_name_of(path@),
{
    match file_name_chars(&to_chars(path)) {
        Some(n) => Some(from_chars(&n)),
        None => None,
    }
}

/// `path` without its final component, as `Path::parent` gives it.
pub fn parent(path: &str) -> (dir: Option<String>)
    ensures
        opt_text(dir) == parent_of(path@),
{
    match parent_chars(&to_chars(path)) {
        Some(p) => Some(from_chars(&p)),
        None => None,
    }
}

/// `base` extended by `component`, as `Path::join` gives it.
pub fn join_path(base: &str, component: &str) -> (path: String)
    ensures
        path@ == joined(base@, component@),
{
    from_chars(&join_chars(&to_chars(base), &to_chars(component)))
}

} // verus!
