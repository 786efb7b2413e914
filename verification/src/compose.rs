//! Composition of a volume and a stored location into the absolute location
//! that an item had before it was trashed.

use vstd::prelude::*;
use crate::paths::is_absolute;
use crate::text::{from_chars, lemma_last_match_is, push_all, to_chars, CharClass};
use crate::tokens::{trim_end, trimmed_end};

verus! {

/// The location of an item of `volume` whose record stores `location`: an
/// absolute `location` stands for itself; a relative one is put behind the
/// volume, with one separator between them unless the volume ends with one.
pub open spec fn volume_joined(volume: Seq<char>, location: Seq<char>) -> Seq<char> {
    if is_absolute(location) {
        location
    } else if volume.len() > 0 && volume.last() == '/' {
        volume + location
    } else {
        volume + seq!['/'] + location
    }
}

/// The same composition after every trailing separator of the volume has been
/// dropped, so that exactly one separator stands before a relative location.
pub open spec fn original_location(volume: Seq<char>, location: Seq<char>) -> Seq<char> {
    if is_absolute(location) {
        location
    } else {
        trim_end(volume, CharClass::Is('/')) + seq!['/'] + location
    }
}

/// Both compositions leave an absolute stored location as it is, whatever the
/// volume.
pub proof fn lemma_absolute_location_is_kept(volume: Seq<char>, location: Seq<char>)
    requires
        is_absolute(location),
    ensures
        volume_joined(volume, location) == location,
        original_location(volume, location) == location,
{
}

/// On the root volume a relative location gets one leading separator.
pub proof fn lemma_root_volume(location: Seq<char>)
    requires
        !is_absolute(location),
    ensures
        volume_joined(seq!['/'], location) == seq!['/'] + location,
        original_location(seq!['/'], location) == seq!['/'] + location,
{
    let root = seq!['/'];
    lemma_last_match_is(root, CharClass::Is('/').when(false), -1);
    assert(trim_end(root, CharClass::Is('/')) =~= Seq::<char>::empty());
    assert(Seq::<char>::empty() + seq!['/'] + location =~= seq!['/'] + location);
}

/// The two compositions give the same location unless the volume ends with
/// two or more separators.
pub proof fn lemma_compositions_agree(volume: Seq<char>, location: Seq<char>)
    requires
        !(volume.len() >= 2 && volume[volume.len() - 1] == '/' && volume[volume.len() - 2]
            == '/'),
    ensures
        volume_joined(volume, location) == original_location(volume, location),
{
    let outside = CharClass::Is('/').when(false);
    if !is_absolute(location) {
        if volume.len() > 0 && volume.last() == '/' {
            lemma_last_match_is(volume, outside, volume.len() - 2);
            assert(trim_end(volume, CharClass::Is('/')) =~= volume.drop_last());
            assert(volume.drop_last() + seq!['/'] + location =~= volume + location);
        } else {
            lemma_last_match_is(volume, outside, volume.len() - 1);
            assert(trim_end(volume, CharClass::Is('/')) =~= volume);
        }
    }
}

/// The absolute location of an item, from the volume of its trash directory
/// and the location that its record stores.
pub fn join_volume_and_path(volume: &str, original_location: &str) -> (complete: String)
    ensures
        complete@ == volume_joined(volume@, original_location@),
        is_absolute(original_location@) ==> complete@ == original_location@,
{
    let vol = to_chars(volume);
    let loc = to_chars(original_location);
    let mut out: Vec<char> = Vec::new();
    if loc.len() > 0 && loc[0] == '/' {
        push_all(&mut out, &loc);
        assert(out@ =~= loc@);
    } else {
        push_all(&mut out, &vol);
        if !(vol.len() > 0 && vol[vol.len() - 1] == '/') {
            out.push('/');
        }
        push_all(&mut out, &loc);
        assert(out@ =~= volume_joined(vol@, loc@));
    }
    from_chars(&out)
}

/// The absolute location of an item, with the volume's trailing separators
/// dropped before the stored location is put behind it.
pub fn compose_original_location(volume: &str, relative_location: &str) -> (complete: String)
    ensures
        complete@ == original_location(volume@, relative_location@),
        is_absolute(relative_location@) ==> complete@ == relative_location@,
{
    let loc = to_chars(relative_location);
    let mut out: Vec<char> = Vec::new();
    if loc.len() > 0 && loc[0] == '/' {
        push_all(&mut out, &loc);
        assert(out@ =~= loc@);
    } else {
        let vol = trimmed_end(&to_chars(volume), CharClass::Is('/'));
        push_all(&mut out, &vol);
        out.push('/');
        push_all(&mut out, &loc);
        assert(out@ =~= original_location(volume@, loc@));
    }
    from_chars(&out)
}

} // verus!
