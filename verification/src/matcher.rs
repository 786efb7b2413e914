//! Selection of trashed items by a pattern.

use vstd::prelude::*;
use crate::paths::{file_name_chars, file_name_of, is_absolute};
use crate::text::{from_chars, lemma_first_match, scan, to_chars, CharClass};

verus! {

/// Shell-style pattern matching, as `fnmatch` without flags does it:
/// case-sensitive, with `*` and `?` matching a separator too. Nothing is
/// promised of an implementation here.
pub trait Matcher {
    /// Whether `pattern` matches all of `subject`.
    fn matches(&self, pattern: &str, subject: &str) -> bool;
}

/// What a pattern is held against: the whole location when the pattern starts
/// with a separator, else the final component of the location, which is empty
/// where the location has none.
pub open spec fn subject_of(pattern: Seq<char>, location: Seq<char>) -> Seq<char> {
    if is_absolute(pattern) {
        location
    } else {
        match file_name_of(location) {
            Some(name) => name,
            None => Seq::empty(),
        }
    }
}

/// The part of an original location that the pattern is held against.
pub fn match_subject(pattern: &str, original_location: &str) -> (subject: String)
    ensures
        subject@ == subject_of(pattern@, original_location@),
{
    let pat = to_chars(pattern);
    if pat.len() > 0 && pat[0] == '/' {
        original_location.to_owned()
    } else {
        match file_name_chars(&to_chars(original_location)) {
            Some(name) => from_chars(&name),
            None => String::new(),
        }
    }
}

/// Whether the text holds a NUL character, which no pattern and no subject
/// handed to the matcher may hold.
pub fn has_nul(text: &str) -> (found: bool)
    ensures
        found == text@.contains('\0'),
{
    let chars = to_chars(text);
    assert(chars@.skip(0) =~= chars@);
    let at = scan(&chars, CharClass::Is('\0'), true, 0);
    proof {
        lemma_first_match(chars@, CharClass::Is('\0').when(true));
        if at < chars.len() {
            assert(chars@[at as int] == '\0');
        }
    }
    at < chars.len()
}

/// Whether `selected` is the verdict on a location: no, where the pattern or
/// the subject holds a NUL character; else an answer of the matcher for the
/// pattern and the subject that `subject_of` gives.
pub open spec fn is_verdict_of<M: Matcher>(
    matcher: &M,
    pattern: &str,
    location: Seq<char>,
    selected: bool,
) -> bool {
    if pattern@.contains('\0') || subject_of(pattern@, location).contains('\0') {
        !selected
    } else {
        exists|subject: &str|
            #[trigger] call_ensures(M::matches, (matcher, pattern, subject), selected) && subject@
                == subject_of(pattern@, location)
    }
}

/// Whether the pattern selects the location. A pattern or a subject with a
/// NUL character selects nothing; otherwise the matcher decides, on the
/// pattern and the subject of `match_subject`.
pub fn path_matches<M: Matcher>(matcher: &M, pattern: &str, original_location: &str) -> (selected:
    bool)
    ensures
        is_verdict_of(matcher, pattern, original_location@, selected),
        pattern@.contains('\0') || subject_of(pattern@, original_location@).contains('\0')
            ==> !selected,
{
    let subject = match_subject(pattern, original_location);
    if has_nul(pattern) || has_nul(subject.as_str()) {
        false
    } else {
        matcher.matches(pattern, subject.as_str())
    }
}

} // verus!
