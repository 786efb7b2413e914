//! Listing of trashed items: the attribute shown for each, and the lines of
//! a report.

use vstd::prelude::*;
use vstd::string::StringExecFns;
use crate::compose::{compose_original_location, original_location};
use crate::decimal::{decimal, decimal_chars};
use crate::discover::{Environment, MountPolicy};
use crate::errors::CoreError;
use crate::fs::{answered, found, FileMetadata, FileSystem};
use crate::locate::{event_views, is_symlink, symlink, Event, EventKind, EventView, TrashDir};
use crate::removal::error_text;
use crate::mounts::opt_str_text;
use crate::select::{is_selection, select_trash_dirs, Selection};
use crate::text::{from_chars, texts};
use crate::time::opt_fields;
use crate::trashinfo::{backup_copy_path, deletion_date_of, extract_deletion_date, is_scan_of, payload_of, scan_trash_dir, show_deletion_date, shown_date, ScanOutcome, TrashInfoRecord};

verus! {

/// What a listing shows in front of each item.
#[derive(Debug, Clone, Copy, PartialEq, Eq, Structural)]
pub enum Attribute {
    DeletionDate,
    Size,
}

/// One line of a report and the stream it goes to.
#[derive(Debug)]
pub enum Output {
    Stdout(String),
    Stderr(String),
}

/// A line of a report as a value of the model.
pub struct OutputView {
    pub to_stderr: bool,
    pub text: Seq<char>,
}

impl View for Output {
    type V = OutputView;

    open spec fn view(&self) -> OutputView {
        match self {
            Output::Stdout(text) => OutputView { to_stderr: false, text: text@ },
            Output::Stderr(text) => OutputView { to_stderr: true, text: text@ },
        }
    }
}

/// The views of a sequence of lines.
pub open spec fn output_views(lines: Seq<Output>) -> Seq<OutputView> {
    Seq::new(lines.len(), |i: int| lines[i]@)
}

/// The size of a payload, from what the file system told of it: its length
/// where its metadata can be read; zero where they cannot and a symbolic link
/// is at the path; else the failure to read them.
pub open spec fn size_of(meta: Result<FileMetadata, CoreError>, link: Option<FileMetadata>) -> Result<
    u64,
    CoreError,
> {
    match meta {
        Ok(m) => Ok(m.len),
        Err(error) => if symlink(link) {
            Ok(0)
        } else {
            Err(error)
        },
    }
}

/// The size of a payload, from what the file system told of it.
pub fn size_from(meta: Result<FileMetadata, CoreError>, link: &Option<FileMetadata>) -> (size:
    Result<u64, CoreError>)
    ensures
        size == size_of(meta, *link),
{
    match meta {
        Ok(m) => Ok(m.len),
        Err(error) => {
            if is_symlink(link) {
                Ok(0)
            } else {
                Err(error)
            }
        },
    }
}

/// Whether `size` is the size that `file_size` tells of `path`: what
/// `size_of` makes of an answer of the file system to the question for the
/// metadata of `path` and, where that answer is a failure, of an answer to
/// the question for the metadata of `path` itself, links not followed.
pub open spec fn is_size_of<F: FileSystem>(fs: &F, path: &str, size: Result<u64, CoreError>) -> bool {
    exists|meta: Result<FileMetadata, CoreError>|
        #[trigger] call_ensures(F::metadata, (fs, path), meta) && match meta {
            Ok(_) => size == size_of(meta, None),
            Err(_) => exists|link: Result<FileMetadata, CoreError>|
                #[trigger] call_ensures(F::symlink_metadata, (fs, path), link) && size
                    == size_of(meta, answered(link)),
        }
}

/// The size of what is at `path`, in bytes.
pub fn file_size<F: FileSystem>(fs: &F, path: &str) -> (size: Result<u64, CoreError>)
    ensures
        is_size_of(fs, path, size),
{
    match fs.metadata(path) {
        Ok(m) => size_from(Ok(m), &None),
        Err(error) => {
            let link = found(fs.symlink_metadata(path));
            size_from(Err(error), &link)
        },
    }
}

/// Whether `size` is the size that the file system tells of the path with
/// the given text.
pub open spec fn is_size_at<F: FileSystem>(fs: &F, path: Seq<char>, size: Result<u64, CoreError>) -> bool {
    exists|at: &str| #[trigger] is_size_of(fs, at, size) && at@ == path
}

/// Whether `size` is the size that the file system tells of the payload of
/// the record at `info_path`.
pub open spec fn is_payload_size<F: FileSystem>(fs: &F, info_path: Seq<char>, size: nat) -> bool {
    size <= u64::MAX && is_size_at(fs, payload_of(info_path), Ok::<u64, CoreError>(size as u64))
}

/// Whether `text` is the size attribute of the record at `info_path`: the
/// size that the file system tells of its payload, in decimal, or the failure
/// to tell it.
pub open spec fn is_size_text<F: FileSystem>(
    fs: &F,
    info_path: Seq<char>,
    text: Result<String, CoreError>,
) -> bool {
    match text {
        Ok(shown) => exists|size: nat|
            #[trigger] is_payload_size(fs, info_path, size) && shown@ == decimal(size),
        Err(error) => is_size_at(fs, payload_of(info_path), Err::<u64, CoreError>(error)),
    }
}

/// The size of the payload of the record at `info_path`, in decimal.
pub fn size_attribute<F: FileSystem>(fs: &F, info_path: &str) -> (text: Result<String, CoreError>)
    ensures
        is_size_text(fs, info_path@, text),
{
    let backup_copy = backup_copy_path(info_path);
    let at = backup_copy.as_str();
    match file_size(fs, at) {
        Ok(size) => {
            let shown = from_chars(&decimal_chars(size));
            proof {
                assert(is_size_of(fs, at, Ok::<u64, CoreError>(size)));
                assert(is_size_at(fs, payload_of(info_path@), Ok::<u64, CoreError>(size)));
                assert(is_payload_size(fs, info_path@, size as nat));
            }
            Ok(shown)
        },
        Err(error) => {
            proof {
                assert(is_size_of(fs, at, Err::<u64, CoreError>(error)));
                assert(is_size_at(fs, payload_of(info_path@), Err::<u64, CoreError>(error)));
            }
            Err(error)
        },
    }
}

/// The attribute of a record as text: its deletion date as a listing shows
/// it, or the size of its payload in decimal. Only the size can fail.
pub fn extract_attribute<F: FileSystem>(
    fs: &F,
    path: &str,
    contents: &str,
    attribute: Attribute,
) -> (text: Result<String, CoreError>)
    ensures
        attribute == Attribute::DeletionDate ==> (text matches Ok(shown) && shown@ == shown_date(
            deletion_date_of(contents@),
        )),
        attribute == Attribute::Size ==> is_size_text(fs, path@, text),
{
    match attribute {
        Attribute::DeletionDate => Ok(extract_deletion_date(contents)),
        Attribute::Size => size_attribute(fs, path),
    }
}

/// A line of a listing: the attribute, a blank, the original location.
pub fn format_line(attr: &str, original_location: &str) -> (line: String)
    ensures
        line@ == attr@ + " "@ + original_location@,
{
    String::from_str(attr).concat(" ").concat(original_location)
}

/// A line of a listing that also names the payload.
pub fn format_line2(attr: &str, original_location: &str, original_file: &str) -> (line: String)
    ensures
        line@ == attr@ + " "@ + original_location@ + " -> "@ + original_file@,
{
    String::from_str(attr).concat(" ").concat(original_location).concat(" -> ").concat(
        original_file,
    )
}

/// The line of one item of a listing.
pub open spec fn entry_text(
    volume: Seq<char>,
    info_path: Seq<char>,
    location: Seq<char>,
    attr: Seq<char>,
    show_files: bool,
) -> Seq<char> {
    if show_files {
        attr + " "@ + original_location(volume, location) + " -> "@ + payload_of(info_path)
    } else {
        attr + " "@ + original_location(volume, location)
    }
}

/// The line of one item: its attribute and its original location, composed
/// from the volume and the stored location, and the payload where files are
/// shown.
pub fn entry_line(
    volume: &str,
    info_path: &str,
    location: &str,
    attr: &str,
    show_files: bool,
) -> (line: String)
    ensures
        line@ == entry_text(volume@, info_path@, location@, attr@, show_files),
{
    let original = compose_original_location(volume, location);
    if show_files {
        let original_file = backup_copy_path(info_path);
        format_line2(attr, original.as_str(), original_file.as_str())
    } else {
        format_line(attr, original.as_str())
    }
}

/// The line that reports a record without a location.
pub fn parse_error_line(info_path: &str) -> (line: String)
    ensures
        line@ == "Parse Error: "@ + info_path@ + ": Unable to parse Path."@,
{
    String::from_str("Parse Error: ").concat(info_path).concat(": Unable to parse Path.")
}

/// The listing of one trash directory: its lines in order, and the failure
/// that ended it, if one did.
#[derive(Debug)]
pub struct DirListing {
    pub lines: Vec<Output>,
    pub failure: Option<CoreError>,
}

/// The attribute of a record as a listing shows it, given the size of its
/// payload.
pub open spec fn attribute_text(record: TrashInfoRecord, attribute: Attribute, size: nat) -> Seq<
    char,
> {
    match attribute {
        Attribute::DeletionDate => shown_date(opt_fields(record.deletion_date)),
        Attribute::Size => decimal(size),
    }
}

/// The line that a listing shows for one outcome of a scan, given the size
/// of the payload and, for a record that could not be read, the reason.
pub open spec fn outcome_line(
    volume: Seq<char>,
    outcome: ScanOutcome,
    attribute: Attribute,
    show_files: bool,
    size: nat,
    reason: Seq<char>,
) -> OutputView {
    match outcome {
        ScanOutcome::Record(record) => OutputView {
            to_stderr: false,
            text: entry_text(
                volume,
                record.info_path@,
                record.location@,
                attribute_text(record, attribute, size),
                show_files,
            ),
        },
        ScanOutcome::ParseFailure(path, _) => OutputView {
            to_stderr: true,
            text: "Parse Error: "@ + path@ + ": Unable to parse Path."@,
        },
        ScanOutcome::Unreadable(_, _) => OutputView { to_stderr: true, text: reason },
    }
}

/// The lines of the first `count` outcomes.
pub open spec fn listed(
    volume: Seq<char>,
    outcomes: Seq<ScanOutcome>,
    attribute: Attribute,
    show_files: bool,
    sizes: Seq<nat>,
    reasons: Seq<Seq<char>>,
    count: nat,
) -> Seq<OutputView> {
    Seq::new(
        count,
        |i: int| outcome_line(volume, outcomes[i], attribute, show_files, sizes[i], reasons[i]),
    )
}

/// Whether `sizes` hold, where sizes are shown, for each record among the
/// first `count` outcomes the size that the file system tells of its payload.
pub open spec fn are_sizes<F: FileSystem>(
    fs: &F,
    outcomes: Seq<ScanOutcome>,
    attribute: Attribute,
    sizes: Seq<nat>,
    count: nat,
) -> bool {
    attribute == Attribute::Size ==> forall|i: int|
        0 <= i < count ==> (outcomes[i] matches ScanOutcome::Record(record) ==> is_payload_size(
            fs,
            record.info_path@,
            #[trigger] sizes[i],
        ))
}

/// Whether `reasons` hold, for each record among the first `count` outcomes
/// that could not be read for another cause than an I/O failure, the line of
/// its error.
pub open spec fn are_reasons(outcomes: Seq<ScanOutcome>, reasons: Seq<Seq<char>>, count: nat) -> bool {
    forall|i: int|
        0 <= i < count ==> (outcomes[i] matches ScanOutcome::Unreadable(_, error) ==> (!(error
            is Io) ==> #[trigger] reasons[i] == error.heading() + error.detail()))
}

/// Whether a listing that shows the first `count` outcomes ends as it
/// should: without failure it shows them all; with a failure sizes are
/// shown, the next outcome is a record, and the failure is what the file
/// system answers to the question for the size of its payload.
pub open spec fn ends_listing<F: FileSystem>(
    fs: &F,
    outcomes: Seq<ScanOutcome>,
    attribute: Attribute,
    count: nat,
    failure: Option<CoreError>,
) -> bool {
    match failure {
        None => count == outcomes.len(),
        Some(error) => attribute == Attribute::Size && count < outcomes.len() && (
        outcomes[count as int] matches ScanOutcome::Record(record) && is_size_at(
            fs,
            payload_of(record.info_path@),
            Err::<u64, CoreError>(error),
        )),
    }
}

/// Whether `lines` and `failure` are the listing of the given outcomes: one
/// line for each outcome in turn, with the sizes that the file system tells,
/// up to the first record whose size it cannot tell, which ends the listing
/// with that failure.
pub open spec fn is_listing<F: FileSystem>(
    fs: &F,
    volume: Seq<char>,
    outcomes: Seq<ScanOutcome>,
    attribute: Attribute,
    show_files: bool,
    lines: Seq<OutputView>,
    failure: Option<CoreError>,
) -> bool {
    exists|sizes: Seq<nat>, reasons: Seq<Seq<char>>, count: nat|
        count <= outcomes.len() && are_sizes(fs, outcomes, attribute, sizes, count)
            && are_reasons(outcomes, reasons, count) && ends_listing(
            fs,
            outcomes,
            attribute,
            count,
            failure,
        ) && lines == #[trigger] listed(
            volume,
            outcomes,
            attribute,
            show_files,
            sizes,
            reasons,
            count,
        )
}

/// Lists the outcomes of a scan, one line for each, in their order. A record
/// without a location, or one that could not be read, gives a line on the
/// error stream and the listing goes on. A payload whose size cannot be told
/// ends the listing with that failure, after the lines of the outcomes
/// before it; a date that cannot be read never does.
pub fn list_outcomes<F: FileSystem>(
    fs: &F,
    volume: &str,
    outcomes: &Vec<ScanOutcome>,
    attribute: Attribute,
    show_files: bool,
) -> (listing: DirListing)
    ensures
        attribute == Attribute::DeletionDate ==> listing.failure is None,
        is_listing(
            fs,
            volume@,
            outcomes@,
            attribute,
            show_files,
            output_views(listing.lines@),
            listing.failure,
        ),
{
    let mut lines: Vec<Output> = Vec::new();
    let ghost mut sizes: Seq<nat> = Seq::empty();
    let ghost mut reasons: Seq<Seq<char>> = Seq::empty();
    let mut i: usize = 0;
    assert(output_views(lines@) =~= listed(
        volume@,
        outcomes@,
        attribute,
        show_files,
        sizes,
        reasons,
        0,
    ));
    while i < outcomes.len()
        invariant
            i <= outcomes.len(),
            sizes.len() == i,
            reasons.len() == i,
            are_sizes(fs, outcomes@, attribute, sizes, i as nat),
            are_reasons(outcomes@, reasons, i as nat),
            output_views(lines@) == listed(
                volume@,
                outcomes@,
                attribute,
                show_files,
                sizes,
                reasons,
                i as nat,
            ),
        decreases outcomes.len() - i,
    {
        let ghost before = output_views(lines@);
        let ghost earlier_sizes = sizes;
        let ghost earlier_reasons = reasons;
        let ghost mut size: nat = 0;
        let ghost mut reason: Seq<char> = Seq::empty();
        match &outcomes[i] {
            ScanOutcome::Record(record) => {
                let attr = match attribute {
                    Attribute::DeletionDate => show_deletion_date(&record.deletion_date),
                    Attribute::Size => {
                        match size_attribute(fs, record.info_path.as_str()) {
                            Ok(shown) => {
                                proof {
                                    size = choose|size: nat|
                                        #[trigger] is_payload_size(fs, record.info_path@, size)
                                            && shown@ == decimal(size);
                                }
                                shown
                            },
                            Err(error) => {
                                proof {
                                    assert(ends_listing(
                                        fs,
                                        outcomes@,
                                        attribute,
                                        i as nat,
                                        Some(error),
                                    ));
                                }
                                return DirListing { lines, failure: Some(error) };
                            },
                        }
                    },
                };
                lines.push(
                    Output::Stdout(
                        entry_line(
                            volume,
                            record.info_path.as_str(),
                            record.location.as_str(),
                            attr.as_str(),
                            show_files,
                        ),
                    ),
                );
            },
            ScanOutcome::ParseFailure(path, _) => {
                lines.push(Output::Stderr(parse_error_line(path.as_str())));
            },
            ScanOutcome::Unreadable(_, error) => {
                let text = error_text(error);
                proof {
                    reason = text@;
                }
                lines.push(Output::Stderr(text));
            },
        }
        proof {
            let line = outcome_line(
                volume@,
                outcomes@[i as int],
                attribute,
                show_files,
                size,
                reason,
            );
            assert(output_views(lines@) =~= before.push(line));
            sizes = sizes.push(size);
            reasons = reasons.push(reason);
            assert(before.push(line) =~= listed(
                volume@,
                outcomes@,
                attribute,
                show_files,
                sizes,
                reasons,
                (i + 1) as nat,
            ));
            if attribute == Attribute::Size {
                assert forall|k: int| 0 <= k < i + 1 implies (outcomes@[k] matches ScanOutcome::Record(
                    record,
                ) ==> is_payload_size(fs, record.info_path@, #[trigger] sizes[k])) by {
                    if k < i {
                        assert(sizes[k] == earlier_sizes[k]);
                    }
                }
            }
            assert forall|k: int| 0 <= k < i + 1 implies (outcomes@[k] matches ScanOutcome::Unreadable(
                _,
                error,
            ) ==> (!(error is Io) ==> #[trigger] reasons[k] == error.heading() + error.detail())) by {
                if k < i {
                    assert(reasons[k] == earlier_reasons[k]);
                }
            }
        }
        i += 1;
    }
    assert(ends_listing(fs, outcomes@, attribute, i as nat, None));
    DirListing { lines, failure: None }
}

/// Whether `lines` and `failure` are the listing of the trash directory at
/// `path` on `volume`: the listing of the outcomes of its scan.
pub open spec fn is_dir_listing<F: FileSystem>(
    fs: &F,
    path: Seq<char>,
    volume: Seq<char>,
    attribute: Attribute,
    show_files: bool,
    lines: Seq<OutputView>,
    failure: Option<CoreError>,
) -> bool {
    exists|outcomes: Seq<ScanOutcome>|
        is_scan_of(fs, path, outcomes) && #[trigger] is_listing(
            fs,
            volume,
            outcomes,
            attribute,
            show_files,
            lines,
            failure,
        )
}

/// Lists the items of one trash directory: the outcomes of its scan, by
/// `list_outcomes`.
pub fn list_trash_for_dir<F: FileSystem>(
    fs: &F,
    trash_dir: &TrashDir,
    attribute: Attribute,
    show_files: bool,
) -> (listing: DirListing)
    ensures
        attribute == Attribute::DeletionDate ==> listing.failure is None,
        is_dir_listing(
            fs,
            trash_dir.path@,
            trash_dir.volume@,
            attribute,
            show_files,
            output_views(listing.lines@),
            listing.failure,
        ),
{
    let outcomes = scan_trash_dir(fs, trash_dir.path.as_str());
    let listing = list_outcomes(fs, trash_dir.volume.as_str(), &outcomes, attribute, show_files);
    assert(is_scan_of(fs, trash_dir.path@, outcomes@) && is_listing(
        fs,
        trash_dir.volume@,
        outcomes@,
        attribute,
        show_files,
        output_views(listing.lines@),
        listing.failure,
    ));
    listing
}

/// The line that names a trash directory, or tells why a candidate was
/// skipped.
pub open spec fn trash_dir_text(kind: EventKind, path: Seq<char>) -> Seq<char> {
    match kind {
        EventKind::Found => path,
        EventKind::SkipNotSticky => "parent_not_sticky: "@ + path,
        EventKind::SkipSymlink => "parent_is_symlink: "@ + path,
    }
}

/// The line of one event in a listing of trash directories.
pub fn trash_dir_line(event: &Event) -> (line: String)
    ensures
        line@ == trash_dir_text(event@.kind, event@.path),
{
    match event {
        Event::Found(dir) => dir.path.clone(),
        Event::SkipNotSticky(path) => String::from_str("parent_not_sticky: ").concat(
            path.as_str(),
        ),
        Event::SkipSymlink(path) => String::from_str("parent_is_symlink: ").concat(
            path.as_str(),
        ),
    }
}

/// The lines of a listing of trash directories: one for each event.
pub fn list_trash_dirs(events: &Vec<Event>) -> (lines: Vec<String>)
    ensures
        lines@.len() == events@.len(),
        forall|i: int|
            0 <= i < events@.len() ==> (#[trigger] lines@[i])@ == trash_dir_text(
                events@[i]@.kind,
                events@[i]@.path,
            ),
{
    let mut lines: Vec<String> = Vec::new();
    let mut i: usize = 0;
    while i < events.len()
        invariant
            i <= events.len(),
            lines@.len() == i,
            forall|k: int|
                0 <= k < i ==> (#[trigger] lines@[k])@ == trash_dir_text(
                    events@[k]@.kind,
                    events@[k]@.path,
                ),
        decreases events.len() - i,
    {
        lines.push(trash_dir_line(&events[i]));
        i += 1;
    }
    lines
}

/// What a listing of items says of a candidate that was skipped.
pub open spec fn skip_text(kind: EventKind, path: Seq<char>) -> Seq<char> {
    match kind {
        EventKind::Found => Seq::empty(),
        EventKind::SkipNotSticky => "TrashDir skipped because parent not sticky: "@ + path,
        EventKind::SkipSymlink => "TrashDir skipped because parent is symlink: "@ + path,
    }
}

/// The line that tells, in a listing of items, why a candidate was skipped.
pub fn skip_line(event: &Event) -> (line: Option<String>)
    ensures
        event@.kind == EventKind::Found ==> line is None,
        event@.kind != EventKind::Found ==> (line matches Some(text) && text@ == skip_text(
            event@.kind,
            event@.path,
        )),
{
    match event {
        Event::Found(_) => None,
        Event::SkipNotSticky(path) => Some(
            String::from_str("TrashDir skipped because parent not sticky: ").concat(
                path.as_str(),
            ),
        ),
        Event::SkipSymlink(path) => Some(
            String::from_str("TrashDir skipped because parent is symlink: ").concat(
                path.as_str(),
            ),
        ),
    }
}

/// The report of the given events, given the lines that each trash
/// directory that was found contributes: those lines for a directory, and
/// for a candidate that was skipped one line on the error stream.
pub open spec fn events_report(events: Seq<EventView>, listings: Seq<Seq<OutputView>>) -> Seq<
    OutputView,
>
    decreases events.len(),
{
    if events.len() == 0 || listings.len() != events.len() {
        Seq::empty()
    } else {
        events_report(events.drop_last(), listings.drop_last()) + match events.last().kind {
            EventKind::Found => listings.last(),
            kind => seq![OutputView { to_stderr: true, text: skip_text(kind, events.last().path) }],
        }
    }
}

/// Whether `report` is what a listing adds to a report: its lines and,
/// where a failure ended it, one more line on the error stream, which for a
/// failure that is no I/O failure is the error's own line.
pub open spec fn is_report_of(
    lines: Seq<OutputView>,
    failure: Option<CoreError>,
    report: Seq<OutputView>,
) -> bool {
    match failure {
        None => report == lines,
        Some(error) => report.len() == lines.len() + 1 && report.drop_last() == lines
            && report.last().to_stderr && (!(error is Io) ==> report.last().text
            == error.heading() + error.detail()),
    }
}

/// Whether `report` is what the trash directory at `path` on `volume` adds to
/// a report: what `is_report_of` says of its listing.
pub open spec fn is_dir_report<F: FileSystem>(
    fs: &F,
    path: Seq<char>,
    volume: Seq<char>,
    attribute: Attribute,
    show_files: bool,
    report: Seq<OutputView>,
) -> bool {
    exists|lines: Seq<OutputView>, failure: Option<CoreError>|
        #[trigger] is_dir_listing(fs, path, volume, attribute, show_files, lines, failure)
            && is_report_of(lines, failure, report)
}

/// Whether `listings` hold, for each event of a trash directory that was
/// found, what that directory adds to a report.
pub open spec fn are_reports<F: FileSystem>(
    fs: &F,
    events: Seq<EventView>,
    attribute: Attribute,
    show_files: bool,
    listings: Seq<Seq<OutputView>>,
) -> bool {
    &&& listings.len() == events.len()
    &&& forall|i: int|
        0 <= i < events.len() && events[i].kind == EventKind::Found ==> is_dir_report(
            fs,
            events[i].path,
            events[i].volume,
            attribute,
            show_files,
            #[trigger] listings[i],
        )
}

/// Whether `report` is the report of a listing of the given events.
pub open spec fn is_events_report<F: FileSystem>(
    fs: &F,
    events: Seq<EventView>,
    attribute: Attribute,
    show_files: bool,
    report: Seq<OutputView>,
) -> bool {
    exists|listings: Seq<Seq<OutputView>>|
        are_reports(fs, events, attribute, show_files, listings) && report
            == #[trigger] events_report(events, listings)
}

/// The report of a listing of items: for each trash directory that was found
/// its lines, with the failure that ended it, if any, on the error stream;
/// for each candidate that was skipped one line on the error stream.
pub fn list_events<F: FileSystem>(
    fs: &F,
    events: &Vec<Event>,
    attribute: Attribute,
    show_files: bool,
) -> (report: Vec<Output>)
    ensures
        is_events_report(fs, event_views(events@), attribute, show_files, output_views(report@)),
{
    let mut report: Vec<Output> = Vec::new();
    let ghost mut seen: Seq<Seq<OutputView>> = Seq::empty();
    let mut i: usize = 0;
    assert(output_views(report@) =~= events_report(event_views(events@).take(0), seen));
    while i < events.len()
        invariant
            i <= events.len(),
            are_reports(fs, event_views(events@).take(i as int), attribute, show_files, seen),
            output_views(report@) == events_report(event_views(events@).take(i as int), seen),
        decreases events.len() - i,
    {
        let ghost before = output_views(report@);
        let ghost next = event_views(events@).take(i + 1);
        let ghost earlier = seen;
        let ghost mut added: Seq<OutputView> = Seq::empty();
        proof {
            assert(next.drop_last() =~= event_views(events@).take(i as int));
            assert(next.last() == events@[i as int]@);
        }
        match &events[i] {
            Event::Found(dir) => {
                let mut listing = list_trash_for_dir(fs, dir, attribute, show_files);
                let ghost lines = output_views(listing.lines@);
                let ghost failure = listing.failure;
                report.append(&mut listing.lines);
                assert(output_views(report@) =~= before + lines);
                match &listing.failure {
                    Some(error) => {
                        let text = error_text(error);
                        let ghost last = OutputView { to_stderr: true, text: text@ };
                        report.push(Output::Stderr(text));
                        proof {
                            added = lines.push(last);
                            assert(output_views(report@) =~= before + added);
                            assert(added.drop_last() =~= lines);
                        }
                    },
                    None => {
                        proof {
                            added = lines;
                        }
                    },
                }
                proof {
                    assert(is_report_of(lines, failure, added));
                    assert(is_dir_listing(
                        fs,
                        dir.path@,
                        dir.volume@,
                        attribute,
                        show_files,
                        lines,
                        failure,
                    ));
                    assert(is_dir_report(
                        fs,
                        next.last().path,
                        next.last().volume,
                        attribute,
                        show_files,
                        added,
                    ));
                }
            },
            skipped => {
                match skip_line(skipped) {
                    Some(line) => {
                        report.push(Output::Stderr(line));
                    },
                    None => {},
                }
                proof {
                    assert(output_views(report@) =~= before + seq![
                        OutputView {
                            to_stderr: true,
                            text: skip_text(skipped@.kind, skipped@.path),
                        },
                    ]);
                }
            },
        }
        proof {
            assert(seen.push(added).drop_last() =~= seen);
            seen = seen.push(added);
            assert forall|k: int|
                0 <= k < next.len() && next[k].kind == EventKind::Found implies is_dir_report(
                fs,
                next[k].path,
                next[k].volume,
                attribute,
                show_files,
                #[trigger] seen[k],
            ) by {
                if k < i {
                    assert(seen[k] == earlier[k]);
                    assert(next[k] == event_views(events@).take(i as int)[k]);
                }
            }
        }
        i += 1;
    }
    proof {
        assert(event_views(events@).take(events.len() as int) =~= event_views(events@));
    }
    report
}

/// The report of a listing of the trashed items that a run looks at: that of
/// `list_events` for the events of `select_trash_dirs`.
pub fn list_trash<F: FileSystem>(
    fs: &F,
    selection: &Selection,
    environ: &Environment,
    mount_points: &Vec<String>,
    cwd: Option<&str>,
    policy: MountPolicy,
    attribute: Attribute,
    show_files: bool,
) -> (report: Vec<Output>)
    ensures
        exists|events: Seq<EventView>|
            is_selection(
                fs,
                selection.all_users,
                texts(selection.trash_dirs@),
                *environ,
                texts(mount_points@),
                opt_str_text(cwd),
                policy,
                events,
            ) && #[trigger] is_events_report(
                fs,
                events,
                attribute,
                show_files,
                output_views(report@),
            ),
{
    let events = select_trash_dirs(fs, selection, environ, mount_points, cwd, policy);
    let report = list_events(fs, &events, attribute, show_files);
    assert(is_events_report(
        fs,
        event_views(events@),
        attribute,
        show_files,
        output_views(report@),
    ));
    report
}

/// A listing of dates shows one line for each outcome of the scan.
pub proof fn lemma_listing_of_dates_shows_all<F: FileSystem>(
    fs: &F,
    volume: Seq<char>,
    outcomes: Seq<ScanOutcome>,
    show_files: bool,
    lines: Seq<OutputView>,
    failure: Option<CoreError>,
)
    requires
        is_listing(fs, volume, outcomes, Attribute::DeletionDate, show_files, lines, failure),
    ensures
        failure is None,
        lines.len() == outcomes.len(),
        forall|i: int|
            0 <= i < outcomes.len() ==> (outcomes[i] matches ScanOutcome::Record(record) ==> (
            #[trigger] lines[i]) == OutputView {
                to_stderr: false,
                text: entry_text(
                    volume,
                    record.info_path@,
                    record.location@,
                    shown_date(opt_fields(record.deletion_date)),
                    show_files,
                ),
            }),
{
}

/// A payload whose size the file system cannot tell ends a listing of sizes:
/// the listing has a failure and shows no line for the record or for any
/// outcome after it.
pub proof fn lemma_untold_size_ends_listing<F: FileSystem>(
    fs: &F,
    volume: Seq<char>,
    outcomes: Seq<ScanOutcome>,
    show_files: bool,
    lines: Seq<OutputView>,
    failure: Option<CoreError>,
    at: int,
)
    requires
        is_listing(fs, volume, outcomes, Attribute::Size, show_files, lines, failure),
        0 <= at < outcomes.len(),
        outcomes[at] matches ScanOutcome::Record(record) && forall|size: Result<u64, CoreError>|
            #[trigger] is_size_at(fs, payload_of(record.info_path@), size) ==> size is Err,
    ensures
        failure is Some,
        lines.len() <= at,
{
    let (sizes, reasons, count) = choose|sizes: Seq<nat>, reasons: Seq<Seq<char>>, count: nat|
        count <= outcomes.len() && are_sizes(fs, outcomes, Attribute::Size, sizes, count)
            && are_reasons(outcomes, reasons, count) && ends_listing(
            fs,
            outcomes,
            Attribute::Size,
            count,
            failure,
        ) && lines == #[trigger] listed(
            volume,
            outcomes,
            Attribute::Size,
            show_files,
            sizes,
            reasons,
            count,
        );
    if count > at {
        if let ScanOutcome::Record(record) = outcomes[at] {
            assert(is_payload_size(fs, record.info_path@, sizes[at]));
        }
    }
}

} // verus!
