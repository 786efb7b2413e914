//! Text primitives over sequences of characters.
//!
//! Every path, record and table handled by this crate is text. The functions
//! here work on `Vec<char>` and state their results over `Seq<char>`, the view
//! of `str` and `String`.

use vstd::prelude::*;

verus! {

/// `String::push` appends one character to the end of the string.
pub assume_specification[ String::push ](s: &mut String, c: char)
    ensures
        final(s)@ == old(s)@.push(c),
;

/// The characters of `s`, in order.
pub fn to_chars(s: &str) -> (chars: Vec<char>)
    ensures
        chars@ == s@,
{
    let mut chars: Vec<char> = Vec::new();
    for c in it: s.chars()
        invariant
            it.seq() == s@,
            chars@ == s@.take(it.index()),
    {
        chars.push(c);
    }
    chars
}

/// The string made of `chars`, in order.
pub fn from_chars(chars: &Vec<char>) -> (s: String)
    ensures
        s@ == chars@,
{
    let mut s = String::new();
    let mut i: usize = 0;
    while i < chars.len()
        invariant
            i <= chars.len(),
            s@ == chars@.take(i as int),
        decreases chars.len() - i,
    {
        s.push(chars[i]);
        i += 1;
    }
    s
}

/// The views of a sequence of strings.
pub open spec fn texts(v: Seq<String>) -> Seq<Seq<char>> {
    Seq::new(v.len(), |i: int| v[i]@)
}

/// Index of the first character of `s` that satisfies `pred`, or `s.len()`
/// when there is none.
pub open spec fn first_match(s: Seq<char>, pred: spec_fn(char) -> bool) -> int
    decreases s.len(),
{
    if s.len() == 0 {
        0
    } else if pred(s[0]) {
        0
    } else {
        1 + first_match(s.skip(1), pred)
    }
}

/// Index of the last character of `s` that satisfies `pred`, or `-1` when
/// there is none.
pub open spec fn last_match(s: Seq<char>, pred: spec_fn(char) -> bool) -> int
    decreases s.len(),
{
    if s.len() == 0 {
        -1
    } else if pred(s.last()) {
        s.len() - 1
    } else {
        last_match(s.drop_last(), pred)
    }
}

/// Unicode white space, as `char::is_whitespace` defines it.
pub open spec fn is_space(c: char) -> bool {
    let n = c as u32;
    ||| 0x09 <= n <= 0x0D
    ||| n == 0x20
    ||| n == 0x85
    ||| n == 0xA0
    ||| n == 0x1680
    ||| 0x2000 <= n <= 0x200A
    ||| n == 0x2028
    ||| n == 0x2029
    ||| n == 0x202F
    ||| n == 0x205F
    ||| n == 0x3000
}

/// A set of characters that text is searched for or trimmed of.
#[derive(Clone, Copy, Debug)]
pub enum CharClass {
    /// One given character.
    Is(char),
    /// Unicode white space.
    Space,
}

impl CharClass {
    /// Whether `c` belongs to the class.
    pub open spec fn has(self, c: char) -> bool {
        match self {
            CharClass::Is(x) => c == x,
            CharClass::Space => is_space(c),
        }
    }

    /// The characters whose membership of the class is `want`.
    pub open spec fn when(self, want: bool) -> spec_fn(char) -> bool {
        |c: char| self.has(c) == want
    }

    /// Whether `c` belongs to the class.
    pub fn contains(&self, c: char) -> (b: bool)
        ensures
            b == self.has(c),
    {
        match self {
            CharClass::Is(x) => c == *x,
            CharClass::Space => {
                let n: u32 = c as u32;
                (0x09 <= n && n <= 0x0D) || n == 0x20 || n == 0x85 || n == 0xA0 || n == 0x1680
                    || (0x2000 <= n && n <= 0x200A) || n == 0x2028 || n == 0x2029 || n == 0x202F
                    || n == 0x205F || n == 0x3000
            },
        }
    }
}

/// `first_match` is the least index that satisfies the predicate.
pub proof fn lemma_first_match(s: Seq<char>, pred: spec_fn(char) -> bool)
    ensures
        0 <= first_match(s, pred) <= s.len(),
        first_match(s, pred) < s.len() ==> pred(s[first_match(s, pred)]),
        forall|i: int| 0 <= i < first_match(s, pred) ==> !pred(#[trigger] s[i]),
    decreases s.len(),
{
    if s.len() != 0 && !pred(s[0]) {
        let rest = s.skip(1);
        lemma_first_match(rest, pred);
        assert forall|i: int| 0 <= i < first_match(s, pred) implies !pred(#[trigger] s[i]) by {
            if i > 0 {
                assert(s[i] == rest[i - 1]);
            }
        }
    }
}

/// An index that satisfies the predicate, with none before it, is the
/// first match.
pub proof fn lemma_first_match_is(s: Seq<char>, pred: spec_fn(char) -> bool, k: int)
    requires
        0 <= k <= s.len(),
        forall|i: int| 0 <= i < k ==> !pred(#[trigger] s[i]),
        k < s.len() ==> pred(s[k]),
    ensures
        first_match(s, pred) == k,
{
    lemma_first_match(s, pred);
    let f = first_match(s, pred);
    if f < k {
        assert(!pred(s[f]));
    }
}

/// `last_match` is the greatest index that satisfies the predicate.
pub proof fn lemma_last_match(s: Seq<char>, pred: spec_fn(char) -> bool)
    ensures
        -1 <= last_match(s, pred) < s.len(),
        last_match(s, pred) >= 0 ==> pred(s[last_match(s, pred)]),
        forall|i: int| last_match(s, pred) < i < s.len() ==> !pred(#[trigger] s[i]),
    decreases s.len(),
{
    if s.len() != 0 && !pred(s.last()) {
        let init = s.drop_last();
        lemma_last_match(init, pred);
        assert forall|i: int| last_match(s, pred) < i < s.len() implies !pred(#[trigger] s[i]) by {
            if i < s.len() - 1 {
                assert(s[i] == init[i]);
            }
        }
    }
}

/// An index that satisfies the predicate, with none after it, is the last
/// match.
pub proof fn lemma_last_match_is(s: Seq<char>, pred: spec_fn(char) -> bool, k: int)
    requires
        -1 <= k < s.len(),
        forall|i: int| k < i < s.len() ==> !pred(#[trigger] s[i]),
        k >= 0 ==> pred(s[k]),
    ensures
        last_match(s, pred) == k,
{
    lemma_last_match(s, pred);
    let l = last_match(s, pred);
    if l > k {
        assert(!pred(s[l]));
    }
}

/// Index of the first character at or after `start` whose membership of
/// `class` is `want`; `s.len()` when there is none.
pub fn scan(s: &Vec<char>, class: CharClass, want: bool, start: usize) -> (at: usize)
    requires
        start <= s.len(),
    ensures
        start <= at <= s.len(),
        at == start + first_match(s@.skip(start as int), class.when(want)),
{
    let mut i: usize = start;
    while i < s.len() && class.contains(s[i]) != want
        invariant
            start <= i <= s.len(),
            forall|j: int| start <= j < i ==> class.has(s@[j]) != want,
        decreases s.len() - i,
    {
        i += 1;
    }
    proof {
        let tail = s@.skip(start as int);
        assert forall|j: int| 0 <= j < i - start implies !class.when(want)(#[trigger] tail[j]) by {
            assert(tail[j] == s@[start + j]);
        }
        lemma_first_match_is(tail, class.when(want), i - start);
    }
    i
}

/// One more than the index of the last character whose membership of `class`
/// is `want`; 0 when there is none.
pub fn scan_back(s: &Vec<char>, class: CharClass, want: bool) -> (end: usize)
    ensures
        end <= s.len(),
        end == last_match(s@, class.when(want)) + 1,
{
    let mut i: usize = s.len();
    while i > 0 && class.contains(s[i - 1]) != want
        invariant
            i <= s.len(),
            forall|j: int| i <= j < s.len() ==> class.has(s@[j]) != want,
        decreases i,
    {
        i -= 1;
    }
    proof {
        lemma_last_match_is(s@, class.when(want), i - 1);
    }
    i
}

/// Whether `pat` occurs in `s` at index `at`.
pub open spec fn occurs_at(s: Seq<char>, pat: Seq<char>, at: int) -> bool {
    0 <= at && at + pat.len() <= s.len() && s.subrange(at, at + pat.len()) == pat
}

/// Whether `pat` occurs in `s` at index `at`.
pub fn matches_at(s: &Vec<char>, pat: &Vec<char>, at: usize) -> (b: bool)
    ensures
        b == occurs_at(s@, pat@, at as int),
{
    if pat.len() > s.len() || at > s.len() - pat.len() {
        return false;
    }
    let mut k: usize = 0;
    while k < pat.len()
        invariant
            k <= pat.len(),
            at + pat.len() <= s.len(),
            forall|j: int| 0 <= j < k ==> s@[at + j] == pat@[j],
        decreases pat.len() - k,
    {
        if s[at + k] != pat[k] {
            proof {
                let sub = s@.subrange(at as int, at + pat.len());
                assert(sub[k as int] == s@[at + k]);
            }
            return false;
        }
        k += 1;
    }
    assert(s@.subrange(at as int, at + pat.len()) =~= pat@);
    true
}

/// Whether `s` starts with `prefix`.
pub fn starts_with(s: &Vec<char>, prefix: &Vec<char>) -> (b: bool)
    ensures
        b == prefix@.is_prefix_of(s@),
{
    matches_at(s, prefix, 0)
}

/// Whether `s` ends with `suffix`.
pub fn ends_with(s: &Vec<char>, suffix: &Vec<char>) -> (b: bool)
    ensures
        b == suffix@.is_suffix_of(s@),
{
    if suffix.len() > s.len() {
        return false;
    }
    matches_at(s, suffix, s.len() - suffix.len())
}

/// The characters of `s` from `from` up to, not including, `to`.
pub fn slice(s: &Vec<char>, from: usize, to: usize) -> (out: Vec<char>)
    requires
        from <= to <= s.len(),
    ensures
        out@ == s@.subrange(from as int, to as int),
{
    let mut out: Vec<char> = Vec::new();
    let mut i: usize = from;
    while i < to
        invariant
            from <= i <= to <= s.len(),
            out@ == s@.subrange(from as int, i as int),
        decreases to - i,
    {
        out.push(s[i]);
        i += 1;
    }
    out
}

/// Appends the characters of `tail` to `out`.
pub fn push_all(out: &mut Vec<char>, tail: &Vec<char>)
    ensures
        final(out)@ == old(out)@ + tail@,
{
    let mut i: usize = 0;
    while i < tail.len()
        invariant
            i <= tail.len(),
            out@ == old(out)@ + tail@.take(i as int),
        decreases tail.len() - i,
    {
        out.push(tail[i]);
        i += 1;
    }
    assert(tail@.take(tail.len() as int) =~= tail@);
}

} // verus!
