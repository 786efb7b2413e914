//! Trashinfo records: the stored location, the deletion date, and the payload
//! that a record stands for.

use vstd::prelude::*;
use crate::errors::CoreError;
use crate::fs::{content_text, FileSystem};
use crate::helpers::TRASHINFO_EXTENSION;
use crate::paths::{file_name_chars, file_name_of, join_chars, joined, last_segment, lemma_last_separator, lemma_normalize_end_prefix, normalize_end, opt_text, parent_chars, parent_of};
use crate::text::{ends_with, from_chars, lemma_last_match_is, slice, starts_with, to_chars, CharClass};
use crate::time::{format_fields, formatted_datetime, opt_fields, parse_naive, parsed_datetime, Fields, Timestamp, LISTING_TIME_FORMAT, TRASHINFO_TIME_FORMAT};
use crate::tokens::{lines, split_lines, views};

verus! {

/// The key of the line that stores the original location.
pub const PATH_KEY: &'static str = "Path=";

/// The key of the line that stores the deletion date.
pub const DELETION_DATE_KEY: &'static str = "DeletionDate=";

/// What is shown for a deletion date that is absent or cannot be read.
pub const UNKNOWN_DELETION_DATE: &'static str = "????-??-?? ??:??:??";

/// Name of the directory of a trash directory that holds the records.
pub const INFO_DIR_NAME: &'static str = "info";

/// Name of the directory of a trash directory that holds the payloads.
pub const FILES_DIR_NAME: &'static str = "files";

/// `std::string::FromUtf8Error`, the error of the decoder. It is carried
/// through; nothing is read from it.
#[verifier::external_type_specification]
#[verifier::external_body]
pub struct ExFromUtf8Error(std::string::FromUtf8Error);

/// What `urlencoding::decode` makes of `data`; `None` where it reports that
/// the decoded bytes are no UTF-8.
pub uninterp spec fn percent_decoded(data: Seq<char>) -> Option<Seq<char>>;

/// The text that the decoder gave, if it gave one.
pub open spec fn decoded_text(out: Result<String, std::string::FromUtf8Error>) -> Option<
    Seq<char>,
> {
    match out {
        Ok(text) => Some(text@),
        Err(_) => None,
    }
}

/// Calls `urlencoding::decode` and hands out an owned string. The contract
/// names the result, and states the one case that the function's first lines
/// settle: text without a percent sign is returned as it is.
#[verifier::external_body]
pub(crate) fn percent_decode(data: &str) -> (out: Result<String, std::string::FromUtf8Error>)
    ensures
        decoded_text(out) == percent_decoded(data@),
        !data@.contains('%') ==> decoded_text(out) == Some(data@),
{
    match urlencoding::decode(data) {
        Ok(text) => Ok(text.into_owned()),
        Err(error) => Err(error),
    }
}

/// Why a record gives no original location.
#[derive(Debug, Clone, Copy, PartialEq, Eq, Structural)]
pub enum ParseError {
    /// No line of the record starts with the path key.
    MissingPath,
    /// The stored location does not decode to text.
    InvalidEncoding,
}

/// The rest of the first of the given lines that starts with `key`.
pub open spec fn first_value(table: Seq<Seq<char>>, key: Seq<char>) -> Option<Seq<char>>
    decreases table.len(),
{
    if table.len() == 0 {
        None
    } else if key.is_prefix_of(table[0]) {
        Some(table[0].skip(key.len() as int))
    } else {
        first_value(table.skip(1), key)
    }
}

/// The value that a record stores under `key`: the first occurrence wins.
pub open spec fn field_of(contents: Seq<char>, key: Seq<char>) -> Option<Seq<char>> {
    first_value(lines(contents), key)
}

/// The original location that a record stores, decoded.
pub open spec fn path_of(contents: Seq<char>) -> Result<Seq<char>, ParseError> {
    match field_of(contents, PATH_KEY@) {
        Some(encoded) => match percent_decoded(encoded) {
            Some(location) => Ok(location),
            None => Err(ParseError::InvalidEncoding),
        },
        None => Err(ParseError::MissingPath),
    }
}

/// The deletion date that a record stores, where it stores one that can be
/// read.
pub open spec fn deletion_date_of(contents: Seq<char>) -> Option<Fields> {
    match field_of(contents, DELETION_DATE_KEY@) {
        Some(value) => parsed_datetime(value, TRASHINFO_TIME_FORMAT@),
        None => None,
    }
}

/// A deletion date as a listing shows it: the placeholder where there is no
/// date to show.
pub open spec fn shown_date(date: Option<Fields>) -> Seq<char> {
    match date {
        Some(fields) => match formatted_datetime(fields, LISTING_TIME_FORMAT@) {
            Some(text) => text,
            None => UNKNOWN_DELETION_DATE@,
        },
        None => UNKNOWN_DELETION_DATE@,
    }
}

/// The value that a record stores under `key`.
pub fn field(contents: &str, key: &str) -> (value: Option<String>)
    ensures
        opt_text(value) == field_of(contents@, key@),
{
    let table = split_lines(&to_chars(contents));
    let prefix = to_chars(key);
    let mut i: usize = 0;
    assert(views(table@).skip(0) =~= views(table@));
    while i < table.len()
        invariant
            i <= table.len(),
            prefix@ == key@,
            views(table@) == lines(contents@),
            field_of(contents@, key@) == first_value(views(table@).skip(i as int), key@),
        decreases table.len() - i,
    {
        proof {
            assert(views(table@).skip(i as int)[0] == table@[i as int]@);
            assert(views(table@).skip(i as int).skip(1) =~= views(table@).skip(i + 1));
        }
        if starts_with(&table[i], &prefix) {
            let rest = slice(&table[i], prefix.len(), table[i].len());
            return Some(from_chars(&rest));
        }
        i += 1;
    }
    None
}

/// The original location, from what the decoder made of the stored one.
pub fn located(decoded: Result<String, std::string::FromUtf8Error>) -> (location: Result<
    String,
    ParseError,
>)
    ensures
        match decoded {
            Ok(text) => location matches Ok(l) && l@ == text@,
            Err(_) => location == Err::<String, ParseError>(ParseError::InvalidEncoding),
        },
{
    match decoded {
        Ok(text) => Ok(text),
        Err(_) => Err(ParseError::InvalidEncoding),
    }
}

/// The text of a location or the reason why there is none.
pub open spec fn location_text(location: Result<String, ParseError>) -> Result<
    Seq<char>,
    ParseError,
> {
    match location {
        Ok(l) => Ok(l@),
        Err(e) => Err(e),
    }
}

/// The original location that a record stores: the value of its first path
/// line, percent-decoded. A record without such a line, or whose location
/// does not decode, is a parse failure. A stored location without a percent
/// sign stands for itself.
pub fn parse_path(contents: &str) -> (location: Result<String, ParseError>)
    ensures
        location_text(location) == path_of(contents@),
        field_of(contents@, PATH_KEY@) is None ==> location_text(location) == Err::<
            Seq<char>,
            ParseError,
        >(ParseError::MissingPath),
        field_of(contents@, PATH_KEY@) matches Some(stored) ==> (!stored.contains('%')
            ==> location_text(location) == Ok::<Seq<char>, ParseError>(stored)),
{
    match field(contents, PATH_KEY) {
        Some(encoded) => located(percent_decode(encoded.as_str())),
        None => Err(ParseError::MissingPath),
    }
}

/// The deletion date that a record stores; `None` where the record has no
/// date line or its first date line cannot be read.
pub fn deletion_date(contents: &str) -> (date: Option<Timestamp>)
    ensures
        opt_fields(date) == deletion_date_of(contents@),
{
    match field(contents, DELETION_DATE_KEY) {
        Some(value) => parse_naive(value.as_str(), TRASHINFO_TIME_FORMAT),
        None => None,
    }
}

/// The written date, or the placeholder where there is none.
pub fn date_or_unknown(written: Option<String>) -> (shown: String)
    ensures
        shown@ == match written {
            Some(text) => text@,
            None => UNKNOWN_DELETION_DATE@,
        },
{
    match written {
        Some(text) => text,
        None => UNKNOWN_DELETION_DATE.to_owned(),
    }
}

/// A deletion date as a listing shows it.
pub fn show_deletion_date(date: &Option<Timestamp>) -> (shown: String)
    ensures
        shown@ == shown_date(opt_fields(*date)),
        date is None ==> shown@ == UNKNOWN_DELETION_DATE@,
{
    match date {
        Some(t) => date_or_unknown(format_fields(t, LISTING_TIME_FORMAT)),
        None => date_or_unknown(None),
    }
}

/// The deletion date of a record as a listing shows it. A record without a
/// date line, or whose first date line cannot be read, gets the placeholder:
/// an unreadable date is no failure.
pub fn extract_deletion_date(contents: &str) -> (shown: String)
    ensures
        shown@ == shown_date(deletion_date_of(contents@)),
        deletion_date_of(contents@) is None ==> shown@ == UNKNOWN_DELETION_DATE@,
{
    show_deletion_date(&deletion_date(contents))
}

/// The final component of a path; empty where it has none.
pub open spec fn name_of(path: Seq<char>) -> Seq<char> {
    match file_name_of(path) {
        Some(name) => name,
        None => Seq::empty(),
    }
}

/// Whether the path names a record: its final component ends with the
/// trashinfo suffix.
pub open spec fn is_record_path(path: Seq<char>) -> bool {
    TRASHINFO_EXTENSION@.is_suffix_of(name_of(path))
}

/// `name` without the trashinfo suffix, where it ends with it.
pub open spec fn stem_of(name: Seq<char>) -> Seq<char> {
    if TRASHINFO_EXTENSION@.is_suffix_of(name) {
        name.take(name.len() - TRASHINFO_EXTENSION@.len())
    } else {
        name
    }
}

/// The trash directory that holds a record: the parent of the parent of the
/// record's path; empty where there is none.
pub open spec fn trash_root_of(info_path: Seq<char>) -> Seq<char> {
    match parent_of(info_path) {
        Some(info_dir) => match parent_of(info_dir) {
            Some(root) => root,
            None => Seq::empty(),
        },
        None => Seq::empty(),
    }
}

/// The payload that a record stands for: in the files directory of the
/// record's trash directory, under the record's name without the suffix.
pub open spec fn payload_of(info_path: Seq<char>) -> Seq<char> {
    joined(joined(trash_root_of(info_path), FILES_DIR_NAME@), stem_of(name_of(info_path)))
}

/// The path of the record called `name` in the trash directory at `root`.
pub open spec fn record_path(root: Seq<char>, name: Seq<char>) -> Seq<char> {
    joined(joined(root, INFO_DIR_NAME@), name + TRASHINFO_EXTENSION@)
}

/// The path of the payload called `name` in the trash directory at `root`.
pub open spec fn payload_path(root: Seq<char>, name: Seq<char>) -> Seq<char> {
    joined(joined(root, FILES_DIR_NAME@), name)
}

/// Payload correspondence: the record called `name` in the info directory of
/// a trash directory stands for the payload called `name` in its files
/// directory. The root is a path without a trailing separator or `.`
/// component, or the root directory itself.
pub proof fn lemma_payload_correspondence(root: Seq<char>, name: Seq<char>)
    requires
        normalize_end(root) == root || root == seq!['/'],
        !name.contains('/'),
    ensures
        is_record_path(record_path(root, name)),
        name_of(record_path(root, name)) == name + TRASHINFO_EXTENSION@,
        trash_root_of(record_path(root, name)) == root,
        payload_of(record_path(root, name)) == payload_path(root, name),
{
    reveal_strlit("info");
    reveal_strlit(".trashinfo");
    let sep = CharClass::Is('/').when(true);
    let info = INFO_DIR_NAME@;
    let ext = TRASHINFO_EXTENSION@;
    let entry = name + ext;
    let info_dir = joined(root, info);
    let info_path = record_path(root, name);
    assert(info.len() == 4 && info[0] == 'i' && info[3] == 'o');
    assert(ext.len() == 10 && ext[0] == '.' && ext[9] == 'o');
    assert forall|i: int| 0 <= i < entry.len() implies entry[i] != '/' by {
        if i < name.len() {
            assert(name.contains(name[i]));
        } else {
            let k = i - name.len();
            assert(entry[i] == ext[k]);
        }
    }
    assert(!entry.contains('/'));
    assert forall|i: int| 0 <= i < info.len() implies info[i] != '/' by {}
    assert(!info.contains('/'));
    assert(entry[0] != '/');
    assert(info_dir.last() == 'o');
    assert(info_path =~= info_dir + seq!['/'] + entry);
    assert(info_path.last() == 'o');
    assert(normalize_end(info_path) == info_path);
    lemma_last_separator(info_dir, entry);
    assert(last_segment(info_path) =~= entry);
    assert(ext.is_suffix_of(entry)) by {
        assert(entry.subrange(entry.len() - ext.len(), entry.len() as int) =~= ext);
    }
    assert(stem_of(entry) =~= name);
    assert(info_path.take(info_dir.len() as int) =~= info_dir);
    assert(normalize_end(info_dir) == info_dir);
    assert(parent_of(info_path) == Some(info_dir));
    if root.len() == 0 {
        assert(info_dir =~= info);
        lemma_last_match_is(info_dir, sep, -1);
        assert(parent_of(info_dir) == Some(Seq::<char>::empty()));
        assert(root =~= Seq::<char>::empty());
    } else if root.last() == '/' {
        lemma_normalize_end_prefix(root.drop_last());
        assert(root =~= seq!['/']);
        assert(info_dir =~= Seq::<char>::empty() + seq!['/'] + info);
        lemma_last_separator(Seq::<char>::empty(), info);
        assert(info_dir.take(0) =~= Seq::<char>::empty());
        assert(parent_of(info_dir) == Some(seq!['/']));
    } else {
        assert(info_dir =~= root + seq!['/'] + info);
        lemma_last_separator(root, info);
        assert(info_dir.take(root.len() as int) =~= root);
        assert(parent_of(info_dir) == Some(root));
    }
}

/// Whether the path names a record.
pub fn has_record_name(path: &str) -> (named: bool)
    ensures
        named == is_record_path(path@),
{
    let name = match file_name_chars(&to_chars(path)) {
        Some(n) => n,
        None => Vec::new(),
    };
    ends_with(&name, &to_chars(TRASHINFO_EXTENSION))
}

/// The path of the payload that the record at `trashinfo_path` stands for.
/// The correspondence goes by the names alone.
pub fn backup_copy_path(trashinfo_path: &str) -> (payload: String)
    ensures
        payload@ == payload_of(trashinfo_path@),
{
    let path = to_chars(trashinfo_path);
    let suffix = to_chars(TRASHINFO_EXTENSION);
    let name = match file_name_chars(&path) {
        Some(n) => n,
        None => Vec::new(),
    };
    let stem = if ends_with(&name, &suffix) {
        slice(&name, 0, name.len() - suffix.len())
    } else {
        name
    };
    let root = match parent_chars(&path) {
        Some(info_dir) => match parent_chars(&info_dir) {
            Some(root) => root,
            None => Vec::new(),
        },
        None => Vec::new(),
    };
    let files = join_chars(&root, &to_chars(FILES_DIR_NAME));
    from_chars(&join_chars(&files, &stem))
}

/// One trashed item as its record describes it.
#[derive(Debug, Clone)]
pub struct TrashInfoRecord {
    /// Path of the record.
    pub info_path: String,
    /// The original location as stored, decoded; absolute or relative to the
    /// volume.
    pub location: String,
    /// When the item was trashed, if the record says so readably.
    pub deletion_date: Option<Timestamp>,
}

/// What reading one record ends in.
#[derive(Debug)]
pub enum ScanOutcome {
    /// The record was read.
    Record(TrashInfoRecord),
    /// The record gives no original location.
    ParseFailure(String, ParseError),
    /// The record could not be read as text.
    Unreadable(String, CoreError),
}

impl ScanOutcome {
    /// The path of the record that the outcome is about.
    pub open spec fn info_path(self) -> Seq<char> {
        match self {
            ScanOutcome::Record(record) => record.info_path@,
            ScanOutcome::ParseFailure(path, _) => path@,
            ScanOutcome::Unreadable(path, _) => path@,
        }
    }
}

/// Whether `outcome` is what reading the record at `path` ends in, given the
/// text of the record, or `None` where the record could not be read: a
/// record that cannot be read is unreadable; one without a location that can
/// be decoded is a parse failure; any other is a record, with the location
/// and the deletion date that the text stores.
pub open spec fn reads_as(outcome: ScanOutcome, path: Seq<char>, content: Option<Seq<char>>) -> bool {
    &&& outcome.info_path() == path
    &&& match content {
        Some(text) => match path_of(text) {
            Ok(location) => outcome matches ScanOutcome::Record(record) && record.location@
                == location && opt_fields(record.deletion_date) == deletion_date_of(text),
            Err(reason) => outcome matches ScanOutcome::ParseFailure(_, why) && why == reason,
        },
        None => outcome is Unreadable,
    }
}

/// Whether each of the outcomes is what reading its record ends in, given
/// the text of each record.
pub open spec fn all_read_as(outcomes: Seq<ScanOutcome>, contents: Seq<Option<Seq<char>>>) -> bool {
    &&& contents.len() == outcomes.len()
    &&& forall|i: int|
        0 <= i < outcomes.len() ==> reads_as(
            outcomes[i],
            outcomes[i].info_path(),
            #[trigger] contents[i],
        )
}

/// Reads one record from what the file system gave for its path.
pub fn read_record(info_path: &str, content: Result<String, CoreError>) -> (outcome: ScanOutcome)
    ensures
        reads_as(outcome, info_path@, content_text(content)),
        content matches Err(error) ==> (outcome matches ScanOutcome::Unreadable(_, cause) && cause
            == error),
{
    match content {
        Ok(text) => match parse_path(text.as_str()) {
            Ok(location) => ScanOutcome::Record(
                TrashInfoRecord {
                    info_path: info_path.to_owned(),
                    location,
                    deletion_date: deletion_date(text.as_str()),
                },
            ),
            Err(reason) => ScanOutcome::ParseFailure(info_path.to_owned(), reason),
        },
        Err(error) => ScanOutcome::Unreadable(info_path.to_owned(), error),
    }
}

/// The info directory of the trash directory at `root`.
pub fn info_dir_of(root: &str) -> (dir: String)
    ensures
        dir@ == joined(root@, INFO_DIR_NAME@),
{
    from_chars(&join_chars(&to_chars(root), &to_chars(INFO_DIR_NAME)))
}

/// The entries of a listing that name a record, in their order.
pub open spec fn record_entries(entries: Seq<String>) -> Seq<Seq<char>>
    decreases entries.len(),
{
    if entries.len() == 0 {
        Seq::empty()
    } else if is_record_path(entries.last()@) {
        record_entries(entries.drop_last()).push(entries.last()@)
    } else {
        record_entries(entries.drop_last())
    }
}

/// Whether `outcome` is what reading the record at `path` ends in: what
/// `read_record` makes of an answer of the file system to the request to read
/// `path` as text.
pub open spec fn is_record_read<F: FileSystem>(fs: &F, path: Seq<char>, outcome: ScanOutcome) -> bool {
    exists|at: &str, content: Result<String, CoreError>|
        #[trigger] call_ensures(F::read_to_string, (fs, at), content) && at@ == path && reads_as(
            outcome,
            path,
            content_text(content),
        ) && (content matches Err(error) ==> (outcome matches ScanOutcome::Unreadable(_, cause)
            && cause == error))
}

/// Whether `outcomes` are the scan of the trash directory at `root`: given
/// an answer of the file system to the request to list the info directory of
/// `root`, no outcome where that answer is a failure, else one outcome for
/// each entry that names a record, in the order of the listing, each what
/// reading that entry ends in.
pub open spec fn is_scan_of<F: FileSystem>(fs: &F, root: Seq<char>, outcomes: Seq<ScanOutcome>) -> bool {
    exists|dir: &str, listing: Result<Vec<String>, CoreError>|
        #[trigger] call_ensures(F::list_dir, (fs, dir), listing) && dir@ == joined(
            root,
            INFO_DIR_NAME@,
        ) && match listing {
            Ok(entries) => outcomes.len() == record_entries(entries@).len() && forall|k: int|
                0 <= k < outcomes.len() ==> is_record_read(
                    fs,
                    record_entries(entries@)[k],
                    #[trigger] outcomes[k],
                ),
            Err(_) => outcomes.len() == 0,
        }
}

/// Reads the records of the trash directory at `root`: every entry of its
/// info directory whose name ends with the trashinfo suffix, in the order in
/// which the file system lists them. An info directory that cannot be listed
/// holds no record. One bad record does not end the scan: each outcome is
/// what `read_record` makes of the entry.
pub fn scan_trash_dir<F: FileSystem>(fs: &F, root: &str) -> (outcomes: Vec<ScanOutcome>)
    ensures
        is_scan_of(fs, root@, outcomes@),
        forall|i: int| 0 <= i < outcomes@.len() ==> is_record_path(#[trigger] outcomes@[i].info_path()),
        exists|contents: Seq<Option<Seq<char>>>| #[trigger] all_read_as(outcomes@, contents),
{
    let mut outcomes: Vec<ScanOutcome> = Vec::new();
    let ghost mut seen: Seq<Option<Seq<char>>> = Seq::empty();
    let info_dir = info_dir_of(root);
    let dir = info_dir.as_str();
    let listing = fs.list_dir(dir);
    let ghost answer = listing;
    match listing {
        Ok(entries) => {
            let mut i: usize = 0;
            while i < entries.len()
                invariant
                    i <= entries.len(),
                    seen.len() == outcomes@.len(),
                    outcomes@.len() == record_entries(entries@.take(i as int)).len(),
                    forall|k: int|
                        0 <= k < outcomes@.len() ==> is_record_read(
                            fs,
                            record_entries(entries@.take(i as int))[k],
                            #[trigger] outcomes@[k],
                        ),
                    forall|k: int|
                        0 <= k < outcomes@.len() ==> is_record_path(
                            #[trigger] outcomes@[k].info_path(),
                        ),
                    forall|k: int|
                        0 <= k < outcomes@.len() ==> reads_as(
                            outcomes@[k],
                            outcomes@[k].info_path(),
                            #[trigger] seen[k],
                        ),
                decreases entries.len() - i,
            {
                let entry = entries[i].as_str();
                let ghost names = record_entries(entries@.take(i as int));
                let ghost before = outcomes@;
                proof {
                    assert(entries@.take(i + 1).drop_last() =~= entries@.take(i as int));
                    assert(entries@.take(i + 1).last() == entries@[i as int]);
                }
                if has_record_name(entry) {
                    let content = fs.read_to_string(entry);
                    let ghost text = content_text(content);
                    let ghost read = content;
                    let outcome = read_record(entry, content);
                    outcomes.push(outcome);
                    proof {
                        seen = seen.push(text);
                        let next = record_entries(entries@.take(i + 1));
                        assert(next == names.push(entry@));
                        assert(call_ensures(F::read_to_string, (fs, entry), read));
                        assert(is_record_read(fs, entry@, outcome));
                        assert forall|k: int| 0 <= k < outcomes@.len() implies is_record_read(
                            fs,
                            next[k],
                            #[trigger] outcomes@[k],
                        ) by {
                            if k < before.len() {
                                assert(outcomes@[k] == before[k]);
                                assert(next[k] == names[k]);
                            }
                        }
                    }
                }
                i += 1;
            }
            proof {
                assert(entries@.take(entries.len() as int) =~= entries@);
                assert(call_ensures(F::list_dir, (fs, dir), answer));
            }
        },
        Err(_) => {
            proof {
                assert(call_ensures(F::list_dir, (fs, dir), answer));
            }
        },
    }
    assert(all_read_as(outcomes@, seen));
    outcomes
}

} // verus!
