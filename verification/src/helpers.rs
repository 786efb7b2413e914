//! Helpers for names and durations.

use vstd::prelude::*;
use core::time::Duration;
use crate::decimal::{decimal, decimal_chars, two_digit_chars, two_digits};
use crate::paths::{file_name_chars, file_name_of, opt_text};
use crate::text::{from_chars, push_all, to_chars};
use crate::tokens::{trim, trimmed};

verus! {

/// File extension used by trash info files.
pub const TRASHINFO_EXTENSION: &'static str = ".trashinfo";

/// `Duration::as_secs` gives the whole seconds of the duration. Nothing is
/// stated of the number.
pub assume_specification[ Duration::as_secs ](duration: &Duration) -> (seconds: u64)
;

/// A path as it is shown to a user: without white space around it.
pub fn sanitize_user_path(path: &str) -> (shown: String)
    ensures
        shown@ == trim(path@),
{
    from_chars(&trimmed(&to_chars(path)))
}

/// The name that an item gets in the trash: the final component of
/// `file_name`, or `item` where it has none, then a dot and `suffix` in
/// decimal.
pub open spec fn unique_basename(file_name: Seq<char>, suffix: nat) -> Seq<char> {
    let base = match file_name_of(file_name) {
        Some(name) => name,
        None => seq!['i', 't', 'e', 'm'],
    };
    base + seq!['.'] + decimal(suffix)
}

/// Builds a deterministic, namespaced filename for trash files.
pub fn build_unique_basename(file_name: &str, suffix: u64) -> (name: String)
    ensures
        name@ == unique_basename(file_name@, suffix as nat),
{
    let mut out: Vec<char> = match file_name_chars(&to_chars(file_name)) {
        Some(base) => base,
        None => {
            let word = vec!['i', 't', 'e', 'm'];
            assert(word@ =~= seq!['i', 't', 'e', 'm']);
            word
        },
    };
    out.push('.');
    push_all(&mut out, &decimal_chars(suffix));
    assert(out@ =~= unique_basename(file_name@, suffix as nat));
    from_chars(&out)
}

/// An upper-case letter of ASCII in lower case; any other character as it is.
pub open spec fn ascii_lower(c: char) -> char {
    if 0x41 <= c as u32 <= 0x5A {
        ((c as u32) + 32) as char
    } else {
        c
    }
}

/// The text with its ASCII letters in lower case.
pub open spec fn lowered(s: Seq<char>) -> Seq<char> {
    Seq::new(s.len(), |i: int| ascii_lower(s[i]))
}

/// The name of the first entry of a directory listing, with its ASCII letters
/// in lower case; `None` for an empty listing.
pub fn first_entry_name(entries: &Vec<String>) -> (name: Option<String>)
    ensures
        opt_text(name) == if entries@.len() > 0 {
            Some(lowered(entries@[0]@))
        } else {
            None
        },
{
    if entries.len() == 0 {
        return None;
    }
    let given = to_chars(entries[0].as_str());
    let mut out: Vec<char> = Vec::new();
    let mut i: usize = 0;
    while i < given.len()
        invariant
            i <= given.len(),
            out@ == lowered(given@).take(i as int),
        decreases given.len() - i,
    {
        let c = given[i];
        let n: u32 = c as u32;
        let low = if 0x41 <= n && n <= 0x5A {
            ((n as u8) + 32) as char
        } else {
            c
        };
        out.push(low);
        assert(out@ =~= lowered(given@).take(i + 1));
        i += 1;
    }
    assert(lowered(given@).take(given.len() as int) =~= lowered(given@));
    Some(from_chars(&out))
}

/// A number of seconds in words: days, hours, minutes and seconds, starting
/// with the largest unit that is not zero.
pub open spec fn duration_text(seconds: nat) -> Seq<char> {
    let s = two_digits(seconds % 60);
    let m = two_digits(seconds / 60 % 60);
    let h = two_digits(seconds / 3600 % 24);
    if seconds >= 86400 {
        decimal(seconds / 86400) + seq!['d', ' '] + h + seq![':'] + m + seq![':'] + s
    } else if seconds >= 3600 {
        decimal(seconds / 3600) + seq!['h', ' '] + m + seq![':'] + s
    } else if seconds >= 60 {
        decimal(seconds / 60) + seq!['m', ' '] + s + seq!['s']
    } else {
        decimal(seconds) + seq!['s']
    }
}

/// Writes a number of seconds in words.
pub fn format_seconds(seconds: u64) -> (text: String)
    ensures
        text@ == duration_text(seconds as nat),
{
    let mins = seconds / 60;
    let hours = mins / 60;
    let days = hours / 24;
    let s = two_digit_chars(seconds % 60);
    let m = two_digit_chars(mins % 60);
    let h = two_digit_chars(hours % 24);
    assert(mins / 60 == seconds / 3600 && hours / 24 == seconds / 86400) by (nonlinear_arith)
        requires
            mins == seconds / 60,
            hours == mins / 60,
    ;
    let mut out: Vec<char> = Vec::new();
    if days > 0 {
        push_all(&mut out, &decimal_chars(days));
        out.push('d');
        out.push(' ');
        push_all(&mut out, &h);
        out.push(':');
        push_all(&mut out, &m);
        out.push(':');
        push_all(&mut out, &s);
    } else if hours > 0 {
        push_all(&mut out, &decimal_chars(hours));
        out.push('h');
        out.push(' ');
        push_all(&mut out, &m);
        out.push(':');
        push_all(&mut out, &s);
    } else if mins > 0 {
        push_all(&mut out, &decimal_chars(mins));
        out.push('m');
        out.push(' ');
        push_all(&mut out, &s);
        out.push('s');
    } else {
        push_all(&mut out, &decimal_chars(seconds));
        out.push('s');
    }
    assert(out@ =~= duration_text(seconds as nat));
    from_chars(&out)
}

/// Produces a human readable string from a duration: its whole seconds in
/// words.
pub fn format_duration(duration: Duration) -> (text: String)
    ensures
        exists|seconds: nat| text@ == duration_text(seconds),
{
    format_seconds(duration.as_secs())
}

} // verus!
