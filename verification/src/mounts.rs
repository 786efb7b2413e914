//! The mount table: its mount points, unescaped, and the volume set that an
//! override pins.

use vstd::prelude::*;
use crate::text::{CharClass, from_chars, texts, to_chars};
use crate::tokens::{fields, lines, nonempty, replace_all, replaced, split, split_fields, split_lines, split_on, views};

verus! {

/// A mount point as the mount table writes it, with its escapes undone: the
/// octal escapes of tab, line feed and space first, in that order, then the
/// doubled backslash. Any other escape stays as it is.
pub open spec fn unescape(value: Seq<char>) -> Seq<char> {
    let tab = replace_all(value, seq!['\\', '0', '1', '1'], seq!['\t']);
    let feed = replace_all(tab, seq!['\\', '0', '1', '2'], seq!['\n']);
    let space = replace_all(feed, seq!['\\', '0', '4', '0'], seq![' ']);
    replace_all(space, seq!['\\', '\\'], seq!['\\'])
}

/// Replacing a pattern whose first character does not occur changes nothing.
pub proof fn lemma_replace_without_first(s: Seq<char>, from: Seq<char>, to: Seq<char>)
    requires
        from.len() > 0,
        !s.contains(from[0]),
    ensures
        replace_all(s, from, to) == s,
    decreases s.len(),
{
    if s.len() >= from.len() {
        assert(s.contains(s[0]));
        if from.is_prefix_of(s) {
            assert(s.subrange(0, from.len() as int)[0] == from[0]);
        } else {
            let rest = s.skip(1);
            assert forall|i: int| 0 <= i < rest.len() implies rest[i] != from[0] by {
                assert(rest[i] == s[i + 1]);
                assert(s.contains(s[i + 1]));
            }
            lemma_replace_without_first(rest, from, to);
            assert(seq![s[0]] + rest =~= s);
        }
    }
}

/// Unescaping leaves a mount point without backslashes as it is, so that
/// unescaping it twice is the same as unescaping it once.
pub proof fn lemma_unescape_without_backslash(value: Seq<char>)
    requires
        !value.contains('\\'),
    ensures
        unescape(value) == value,
        unescape(unescape(value)) == unescape(value),
{
    lemma_replace_without_first(value, seq!['\\', '0', '1', '1'], seq!['\t']);
    lemma_replace_without_first(value, seq!['\\', '0', '1', '2'], seq!['\n']);
    lemma_replace_without_first(value, seq!['\\', '0', '4', '0'], seq![' ']);
    lemma_replace_without_first(value, seq!['\\', '\\'], seq!['\\']);
}

/// Undoes the escapes of a mount point, given as characters.
pub fn unescape_chars(value: &Vec<char>) -> (out: Vec<char>)
    ensures
        out@ == unescape(value@),
{
    let escaped_tab = vec!['\\', '0', '1', '1'];
    let escaped_feed = vec!['\\', '0', '1', '2'];
    let escaped_space = vec!['\\', '0', '4', '0'];
    let doubled = vec!['\\', '\\'];
    let tab = vec!['\t'];
    let feed = vec!['\n'];
    let space = vec![' '];
    let single = vec!['\\'];
    proof {
        assert(escaped_tab@ =~= seq!['\\', '0', '1', '1']);
        assert(escaped_feed@ =~= seq!['\\', '0', '1', '2']);
        assert(escaped_space@ =~= seq!['\\', '0', '4', '0']);
        assert(doubled@ =~= seq!['\\', '\\']);
        assert(tab@ =~= seq!['\t']);
        assert(feed@ =~= seq!['\n']);
        assert(space@ =~= seq![' ']);
        assert(single@ =~= seq!['\\']);
    }
    let first = replaced(value, &escaped_tab, &tab);
    let second = replaced(&first, &escaped_feed, &feed);
    let third = replaced(&second, &escaped_space, &space);
    replaced(&third, &doubled, &single)
}

/// Undoes the escapes of a mount point.
pub fn unescape_mountpoint(value: &str) -> (out: String)
    ensures
        out@ == unescape(value@),
        !value@.contains('\\') ==> out@ == value@,
{
    proof {
        if !value@.contains('\\') {
            lemma_unescape_without_backslash(value@);
        }
    }
    from_chars(&unescape_chars(&to_chars(value)))
}

/// The mount point that a line of the mount table names: its second field,
/// unescaped. A line with fewer than two fields names none.
pub open spec fn mount_point_of(line: Seq<char>) -> Option<Seq<char>> {
    let f = fields(line);
    if f.len() >= 2 {
        Some(unescape(f[1]))
    } else {
        None
    }
}

/// The mount points that the given lines name, in their order.
pub open spec fn mount_points_of(table: Seq<Seq<char>>) -> Seq<Seq<char>>
    decreases table.len(),
{
    if table.len() == 0 {
        Seq::empty()
    } else {
        match mount_point_of(table.last()) {
            Some(point) => mount_points_of(table.drop_last()).push(point),
            None => mount_points_of(table.drop_last()),
        }
    }
}

/// The mount points of a mount table, in table order, duplicates included.
pub open spec fn mount_points(content: Seq<char>) -> Seq<Seq<char>> {
    mount_points_of(lines(content))
}

/// The mount points of a mount table, in table order, duplicates included.
pub fn parse_mount_table(content: &str) -> (points: Vec<String>)
    ensures
        texts(points@) == mount_points(content@),
{
    let table = split_lines(&to_chars(content));
    let mut points: Vec<String> = Vec::new();
    let mut i: usize = 0;
    while i < table.len()
        invariant
            i <= table.len(),
            views(table@) == lines(content@),
            texts(points@) == mount_points_of(views(table@).take(i as int)),
        decreases table.len() - i,
    {
        let ghost before = texts(points@);
        proof {
            assert(views(table@).take(i + 1).drop_last() =~= views(table@).take(i as int));
        }
        let f = split_fields(&table[i]);
        assert(views(f@) == fields(views(table@)[i as int]));
        if f.len() >= 2 {
            let point = from_chars(&unescape_chars(&f[1]));
            assert(views(f@)[1] == f@[1]@);
            points.push(point);
            assert(texts(points@) =~= before.push(point@));
        }
        i += 1;
    }
    assert(views(table@).take(table.len() as int) =~= views(table@));
    points
}

/// The items in order, each kept where it occurs first.
pub open spec fn distinct(items: Seq<Seq<char>>) -> Seq<Seq<char>>
    decreases items.len(),
{
    if items.len() == 0 {
        items
    } else if distinct(items.drop_last()).contains(items.last()) {
        distinct(items.drop_last())
    } else {
        distinct(items.drop_last()).push(items.last())
    }
}

/// Deduplication keeps every item that occurs, and adds none.
pub proof fn lemma_distinct_members(items: Seq<Seq<char>>, item: Seq<char>)
    ensures
        distinct(items).contains(item) <==> items.contains(item),
    decreases items.len(),
{
    if items.len() > 0 {
        let init = items.drop_last();
        lemma_distinct_members(init, item);
        let kept = distinct(init);
        if items.contains(item) {
            let i = choose|i: int| 0 <= i < items.len() && items[i] == item;
            if i < items.len() - 1 {
                assert(init[i] == item);
            } else {
                lemma_distinct_members(init, items.last());
            }
        }
        if kept.contains(items.last()) {
        } else {
            let all = kept.push(items.last());
            assert(all[all.len() - 1] == items.last());
            if kept.contains(item) {
                let k = choose|k: int| 0 <= k < kept.len() && kept[k] == item;
                assert(all[k] == item);
            }
        }
        if init.contains(item) {
            let i = choose|i: int| 0 <= i < init.len() && init[i] == item;
            assert(items[i] == item);
        }
    }
}

/// After deduplication no item occurs twice.
pub proof fn lemma_distinct_has_no_repetition(items: Seq<Seq<char>>)
    ensures
        forall|i: int, j: int|
            0 <= i < j < distinct(items).len() ==> distinct(items)[i] != distinct(items)[j],
    decreases items.len(),
{
    if items.len() > 0 {
        let kept = distinct(items.drop_last());
        lemma_distinct_has_no_repetition(items.drop_last());
        if !kept.contains(items.last()) {
            let all = kept.push(items.last());
            assert forall|i: int, j: int| 0 <= i < j < all.len() implies all[i] != all[j] by {
                if j == all.len() - 1 {
                    assert(kept.contains(kept[i]));
                }
            }
        }
    }
}

/// A pinned volume is never empty.
pub proof fn lemma_nonempty_pieces(pieces: Seq<Seq<char>>)
    ensures
        forall|i: int| 0 <= i < nonempty(pieces).len() ==> (#[trigger] nonempty(pieces)[i]).len() > 0,
    decreases pieces.len(),
{
    if pieces.len() > 0 {
        let init = nonempty(pieces.drop_last());
        lemma_nonempty_pieces(pieces.drop_last());
        assert forall|i: int| 0 <= i < nonempty(pieces).len() implies (#[trigger] nonempty(
            pieces,
        )[i]).len() > 0 by {
            if i < init.len() {
                assert(nonempty(pieces)[i] == init[i]);
            }
        }
    }
}

/// Whether one of `items` has the text of `item`.
pub fn contains_text(items: &Vec<String>, item: &String) -> (found: bool)
    ensures
        found == texts(items@).contains(item@),
{
    let mut i: usize = 0;
    while i < items.len()
        invariant
            i <= items.len(),
            forall|j: int| 0 <= j < i ==> texts(items@)[j] != item@,
        decreases items.len() - i,
    {
        if items[i] == *item {
            assert(texts(items@)[i as int] == item@);
            return true;
        }
        i += 1;
    }
    false
}

/// The mount points without repetitions: each stays where it occurs first.
pub fn dedup_mount_points(points: &Vec<String>) -> (out: Vec<String>)
    ensures
        texts(out@) == distinct(texts(points@)),
{
    let mut out: Vec<String> = Vec::new();
    let mut i: usize = 0;
    while i < points.len()
        invariant
            i <= points.len(),
            texts(out@) == distinct(texts(points@).take(i as int)),
        decreases points.len() - i,
    {
        let ghost before = texts(out@);
        proof {
            assert(texts(points@).take(i + 1).drop_last() =~= texts(points@).take(i as int));
        }
        if !contains_text(&out, &points[i]) {
            out.push(points[i].clone());
            assert(texts(out@) =~= before.push(points@[i as int]@));
        }
        i += 1;
    }
    assert(texts(points@).take(points.len() as int) =~= texts(points@));
    out
}

/// The volume set that an override pins: the segments between its colons that
/// are not empty. An override that is absent or empty pins nothing.
pub open spec fn override_volumes(value: Option<Seq<char>>) -> Option<Seq<Seq<char>>> {
    match value {
        Some(v) => if v.len() > 0 {
            Some(nonempty(split(v, CharClass::Is(':').when(true))))
        } else {
            None
        },
        None => None,
    }
}

/// The volume set that an override pins, or `None` when the mount table is to
/// be asked.
pub fn volumes_from_override(value: Option<&str>) -> (volumes: Option<Vec<String>>)
    ensures
        match volumes {
            Some(v) => override_volumes(crate::mounts::opt_str_text(value)) == Some(texts(v@)),
            None => override_volumes(crate::mounts::opt_str_text(value)) is None,
        },
{
    match value {
        None => None,
        Some(text) => {
            let chars = to_chars(text);
            if chars.len() == 0 {
                return None;
            }
            let pieces = split_on(&chars, CharClass::Is(':'));
            let mut out: Vec<String> = Vec::new();
            let mut i: usize = 0;
            while i < pieces.len()
                invariant
                    i <= pieces.len(),
                    texts(out@) == nonempty(views(pieces@).take(i as int)),
                decreases pieces.len() - i,
            {
                let ghost before = texts(out@);
                proof {
                    assert(views(pieces@).take(i + 1).drop_last() =~= views(pieces@).take(
                        i as int,
                    ));
                }
                if pieces[i].len() > 0 {
                    let volume = from_chars(&pieces[i]);
                    out.push(volume);
                    assert(texts(out@) =~= before.push(pieces@[i as int]@));
                }
                i += 1;
            }
            assert(views(pieces@).take(pieces.len() as int) =~= views(pieces@));
            Some(out)
        },
    }
}

/// The text of an optional string slice.
pub open spec fn opt_str_text(o: Option<&str>) -> Option<Seq<char>> {
    match o {
        Some(s) => Some(s@),
        None => None,
    }
}

} // verus!
