//! Splitting text into pieces, lines and fields, trimming it, and replacing
//! one pattern by another.

use vstd::prelude::*;
use crate::text::{first_match, last_match, lemma_first_match, matches_at, push_all, scan, scan_back, slice, CharClass};

verus! {

/// The views of a sequence of character vectors.
pub open spec fn views(v: Seq<Vec<char>>) -> Seq<Seq<char>> {
    Seq::new(v.len(), |i: int| v[i]@)
}

/// The pieces of `s` between the characters that satisfy `pred`: the text
/// before the first of them, then the pieces of the text after it.
pub open spec fn split(s: Seq<char>, pred: spec_fn(char) -> bool) -> Seq<Seq<char>>
    decreases s.len(),
{
    let i = first_match(s, pred);
    if 0 <= i < s.len() {
        seq![s.take(i)] + split(s.skip(i + 1), pred)
    } else {
        seq![s]
    }
}

/// There is at least one piece, and no piece holds a character that
/// satisfies the predicate.
pub proof fn lemma_split_pieces(s: Seq<char>, pred: spec_fn(char) -> bool)
    ensures
        split(s, pred).len() >= 1,
        forall|i: int, j: int|
            0 <= i < split(s, pred).len() && 0 <= j < split(s, pred)[i].len() ==> !pred(
                #[trigger] split(s, pred)[i][j],
            ),
    decreases s.len(),
{
    lemma_first_match(s, pred);
    let at = first_match(s, pred);
    if 0 <= at < s.len() {
        let rest = split(s.skip(at + 1), pred);
        lemma_split_pieces(s.skip(at + 1), pred);
        let all = split(s, pred);
        assert(all =~= seq![s.take(at)] + rest);
        assert forall|i: int, j: int| 0 <= i < all.len() && 0 <= j < all[i].len() implies !pred(
            #[trigger] all[i][j],
        ) by {
            if i == 0 {
                assert(all[0][j] == s[j]);
            } else {
                assert(all[i] == rest[i - 1]);
            }
        }
    } else {
        assert(split(s, pred) =~= seq![s]);
    }
}

/// The pieces that hold at least one character, in order.
pub open spec fn nonempty(pieces: Seq<Seq<char>>) -> Seq<Seq<char>>
    decreases pieces.len(),
{
    if pieces.len() == 0 {
        pieces
    } else if pieces.last().len() > 0 {
        nonempty(pieces.drop_last()).push(pieces.last())
    } else {
        nonempty(pieces.drop_last())
    }
}

/// The fields of a line: its maximal runs of characters that are not white
/// space.
pub open spec fn fields(s: Seq<char>) -> Seq<Seq<char>> {
    nonempty(split(s, CharClass::Space.when(true)))
}

/// `line` without one trailing carriage return.
pub open spec fn strip_cr(line: Seq<char>) -> Seq<char> {
    if line.len() > 0 && line.last() == '\r' {
        line.drop_last()
    } else {
        line
    }
}

/// The lines of a text. A line ends with a line feed, or with a carriage
/// return and a line feed; neither belongs to the line. The last line need not
/// be ended, and text after the last line feed is a line as it stands.
pub open spec fn lines(s: Seq<char>) -> Seq<Seq<char>>
    decreases s.len(),
{
    if s.len() == 0 {
        Seq::empty()
    } else {
        let i = first_match(s, CharClass::Is('\n').when(true));
        if 0 <= i < s.len() {
            seq![strip_cr(s.take(i))] + lines(s.skip(i + 1))
        } else {
            seq![s]
        }
    }
}

/// `s` without its leading characters of `class`.
pub open spec fn trim_start(s: Seq<char>, class: CharClass) -> Seq<char> {
    s.skip(first_match(s, class.when(false)))
}

/// `s` without its trailing characters of `class`.
pub open spec fn trim_end(s: Seq<char>, class: CharClass) -> Seq<char> {
    s.take(last_match(s, class.when(false)) + 1)
}

/// `s` without leading and trailing white space.
pub open spec fn trim(s: Seq<char>) -> Seq<char> {
    trim_end(trim_start(s, CharClass::Space), CharClass::Space)
}

/// `s` with every occurrence of `from` replaced by `to`. Occurrences are taken
/// from left to right and do not overlap. An empty `from` occurs nowhere.
pub open spec fn replace_all(s: Seq<char>, from: Seq<char>, to: Seq<char>) -> Seq<char>
    decreases s.len(),
{
    if from.len() == 0 || s.len() < from.len() {
        s
    } else if from.is_prefix_of(s) {
        to + replace_all(s.skip(from.len() as int), from, to)
    } else {
        seq![s[0]] + replace_all(s.skip(1), from, to)
    }
}

/// The pieces of `s` between the characters of `class`.
pub fn split_on(s: &Vec<char>, class: CharClass) -> (out: Vec<Vec<char>>)
    ensures
        views(out@) == split(s@, class.when(true)),
{
    let mut out: Vec<Vec<char>> = Vec::new();
    let mut pos: usize = 0;
    let mut done = false;
    assert(s@.skip(0) =~= s@);
    assert(views(out@) + split(s@, class.when(true)) =~= split(s@, class.when(true)));
    while !done
        invariant
            pos <= s.len(),
            !done ==> split(s@, class.when(true)) == views(out@) + split(
                s@.skip(pos as int),
                class.when(true),
            ),
            done ==> views(out@) == split(s@, class.when(true)),
        decreases s.len() - pos + (if done { 0int } else { 1int }),
    {
        let end = scan(s, class, true, pos);
        let piece = slice(s, pos, end);
        let ghost before = views(out@);
        let ghost tail = s@.skip(pos as int);
        out.push(piece);
        proof {
            assert(tail.take(end - pos) =~= s@.subrange(pos as int, end as int));
            assert(views(out@) =~= before + seq![piece@]);
            if end < s.len() {
                assert(tail.skip(end - pos + 1) =~= s@.skip(end + 1));
                assert(before + (seq![piece@] + split(s@.skip(end + 1), class.when(true)))
                    =~= views(out@) + split(s@.skip(end + 1), class.when(true)));
            } else {
                assert(tail =~= piece@);
            }
        }
        if end < s.len() {
            pos = end + 1;
        } else {
            done = true;
        }
    }
    out
}

/// The fields of `s`: its runs of characters that are not white space.
pub fn split_fields(s: &Vec<char>) -> (out: Vec<Vec<char>>)
    ensures
        views(out@) == fields(s@),
{
    let pieces = split_on(s, CharClass::Space);
    let mut out: Vec<Vec<char>> = Vec::new();
    let mut i: usize = 0;
    while i < pieces.len()
        invariant
            i <= pieces.len(),
            views(out@) == nonempty(views(pieces@).take(i as int)),
        decreases pieces.len() - i,
    {
        let ghost before = views(out@);
        proof {
            assert(views(pieces@).take(i + 1).drop_last() =~= views(pieces@).take(i as int));
        }
        if pieces[i].len() > 0 {
            out.push(pieces[i].clone());
            assert(views(out@) =~= before.push(pieces@[i as int]@));
        }
        i += 1;
    }
    assert(views(pieces@).take(pieces.len() as int) =~= views(pieces@));
    out
}

/// The lines of `s`.
pub fn split_lines(s: &Vec<char>) -> (out: Vec<Vec<char>>)
    ensures
        views(out@) == lines(s@),
{
    let mut out: Vec<Vec<char>> = Vec::new();
    let mut pos: usize = 0;
    assert(s@.skip(0) =~= s@);
    assert(views(out@) + lines(s@) =~= lines(s@));
    while pos < s.len()
        invariant
            pos <= s.len(),
            lines(s@) == views(out@) + lines(s@.skip(pos as int)),
        decreases s.len() - pos,
    {
        let end = scan(s, CharClass::Is('\n'), true, pos);
        let ghost before = views(out@);
        let ghost tail = s@.skip(pos as int);
        proof {
            assert(tail.take(end - pos) =~= s@.subrange(pos as int, end as int));
        }
        if end < s.len() {
            let stop = if end > pos && s[end - 1] == '\r' {
                end - 1
            } else {
                end
            };
            let line = slice(s, pos, stop);
            out.push(line);
            proof {
                assert(line@ =~= strip_cr(tail.take(end - pos)));
                assert(tail.skip(end - pos + 1) =~= s@.skip(end + 1));
                assert(views(out@) =~= before + seq![line@]);
                assert(before + (seq![line@] + lines(s@.skip(end + 1))) =~= views(out@) + lines(
                    s@.skip(end + 1),
                ));
            }
            pos = end + 1;
        } else {
            let line = slice(s, pos, end);
            out.push(line);
            proof {
                assert(tail =~= line@);
                assert(views(out@) =~= before + seq![line@]);
                assert(lines(s@.skip(s.len() as int)) =~= Seq::<Seq<char>>::empty());
                assert(views(out@) + lines(s@.skip(s.len() as int)) =~= views(out@));
            }
            pos = s.len();
        }
    }
    assert(views(out@) + lines(s@.skip(pos as int)) =~= views(out@));
    out
}

/// `s` without its leading characters of `class`.
pub fn trimmed_start(s: &Vec<char>, class: CharClass) -> (out: Vec<char>)
    ensures
        out@ == trim_start(s@, class),
{
    assert(s@.skip(0) =~= s@);
    let from = scan(s, class, false, 0);
    slice(s, from, s.len())
}

/// `s` without its trailing characters of `class`.
pub fn trimmed_end(s: &Vec<char>, class: CharClass) -> (out: Vec<char>)
    ensures
        out@ == trim_end(s@, class),
{
    let to = scan_back(s, class, false);
    slice(s, 0, to)
}

/// `s` without leading and trailing white space.
pub fn trimmed(s: &Vec<char>) -> (out: Vec<char>)
    ensures
        out@ == trim(s@),
{
    let head = trimmed_start(s, CharClass::Space);
    trimmed_end(&head, CharClass::Space)
}

/// `s` with every occurrence of `from` replaced by `to`.
pub fn replaced(s: &Vec<char>, from: &Vec<char>, to: &Vec<char>) -> (out: Vec<char>)
    ensures
        out@ == replace_all(s@, from@, to@),
{
    let mut out: Vec<char> = Vec::new();
    let mut i: usize = 0;
    assert(s@.skip(0) =~= s@);
    assert(out@ + replace_all(s@, from@, to@) =~= replace_all(s@, from@, to@));
    if from.len() == 0 {
        push_all(&mut out, s);
        return out;
    }
    while i < s.len()
        invariant
            i <= s.len(),
            from.len() > 0,
            replace_all(s@, from@, to@) == out@ + replace_all(s@.skip(i as int), from@, to@),
        decreases s.len() - i,
    {
        let ghost before = out@;
        let ghost tail = s@.skip(i as int);
        proof {
            if i + from.len() <= s.len() {
                assert(tail.subrange(0, from.len() as int) =~= s@.subrange(
                    i as int,
                    i + from.len(),
                ));
            }
        }
        if matches_at(s, from, i) {
            push_all(&mut out, to);
            proof {
                assert(from@.is_prefix_of(tail));
                assert(tail.skip(from.len() as int) =~= s@.skip(i + from.len()));
                assert(before + (to@ + replace_all(s@.skip(i + from.len()), from@, to@)) =~= out@
                    + replace_all(s@.skip(i + from.len()), from@, to@));
            }
            i += from.len();
        } else if s.len() - i < from.len() {
            let rest = slice(s, i, s.len());
            push_all(&mut out, &rest);
            proof {
                assert(tail =~= rest@);
                assert(replace_all(s@.skip(s.len() as int), from@, to@) =~= Seq::<char>::empty());
                assert(out@ + replace_all(s@.skip(s.len() as int), from@, to@) =~= out@);
            }
            i = s.len();
        } else {
            out.push(s[i]);
            proof {
                assert(!from@.is_prefix_of(tail));
                assert(tail.skip(1) =~= s@.skip(i + 1));
                assert(before + (seq![s@[i as int]] + replace_all(s@.skip(i + 1), from@, to@))
                    =~= out@ + replace_all(s@.skip(i + 1), from@, to@));
            }
            i += 1;
        }
    }
    assert(out@ + replace_all(s@.skip(i as int), from@, to@) =~= out@);
    out
}

} // verus!
