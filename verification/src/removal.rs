//! Selection of the records that a pattern matches, and their removal.

use vstd::prelude::*;
use vstd::string::StringExecFns;
use crate::compose::{join_volume_and_path, volume_joined};
use crate::discover::{Environment, MountPolicy};
use crate::errors::CoreError;
use crate::fs::{FileMetadata, FileSystem};
use crate::locate::TrashDir;
use crate::matcher::{is_verdict_of, path_matches, Matcher};
use crate::select::{collect_trash_dirs, dir_views, is_collection};
use crate::text::texts;
use crate::trashinfo::{backup_copy_path, is_record_path, is_scan_of, payload_of, scan_trash_dir, ScanOutcome, TrashInfoRecord};

verus! {

/// Exit code of a run that removed every selected item.
pub const EXIT_DONE: u8 = 0;

/// Exit code of a run in which a removal step failed.
pub const EXIT_FAILED: u8 = 1;

/// Exit code of a run that was given no pattern.
pub const EXIT_NO_PATTERN: u8 = 8;

/// What is written when no pattern is given.
pub const USAGE: &'static str =
    "Usage:\n    trash-rm PATTERN\n\nPlease specify PATTERN.\ntrash-rm uses fnmatch.fnmatchcase to match patterns, see https://docs.python.org/3/library/fnmatch.html for more details.";

/// A record that the pattern selects.
#[derive(Debug, Clone)]
pub struct MatchedItem {
    /// The original location as the record stores it, decoded.
    pub original_location: String,
    /// Path of the record.
    pub info_path: String,
    /// Path of the payload that the record stands for.
    pub backup_path: String,
}

/// The item that a record gives when the pattern selects it.
pub fn matched_item(record: &TrashInfoRecord) -> (item: MatchedItem)
    ensures
        item.original_location@ == record.location@,
        item.info_path@ == record.info_path@,
        item.backup_path@ == payload_of(record.info_path@),
{
    MatchedItem {
        original_location: record.location.clone(),
        info_path: record.info_path.clone(),
        backup_path: backup_copy_path(record.info_path.as_str()),
    }
}

/// Whether a result of the selection is in order: a selected item has the
/// path of a record and the payload that goes with it; a failure names the
/// path of a record.
pub open spec fn is_selection_result(result: Result<MatchedItem, String>) -> bool {
    match result {
        Ok(item) => is_record_path(item.info_path@) && item.backup_path@ == payload_of(
            item.info_path@,
        ),
        Err(path) => is_record_path(path@),
    }
}

/// A result of the selection as a value of the model: for a selected item
/// its stored location, the path of its record and the path of its payload;
/// for a record without a location the path of the record.
pub type MatchView = Result<(Seq<char>, Seq<char>, Seq<char>), Seq<char>>;

/// The views of a sequence of results.
pub open spec fn match_views(matched: Seq<Result<MatchedItem, String>>) -> Seq<MatchView> {
    Seq::new(
        matched.len(),
        |i: int|
            match matched[i] {
                Ok(item) => Ok((item.original_location@, item.info_path@, item.backup_path@)),
                Err(path) => Err(path@),
            },
    )
}

/// What the selection makes of the outcomes of a scan, given for each the
/// verdict of the matcher: a record is selected if its verdict says so, with
/// the payload that its path stands for; an outcome without a location is
/// reported by its path, whatever its verdict.
pub open spec fn selection(outcomes: Seq<ScanOutcome>, verdicts: Seq<bool>) -> Seq<MatchView>
    decreases outcomes.len(),
{
    if outcomes.len() == 0 || verdicts.len() != outcomes.len() {
        Seq::empty()
    } else {
        let init = selection(outcomes.drop_last(), verdicts.drop_last());
        match outcomes.last() {
            ScanOutcome::Record(record) => if verdicts.last() {
                init.push(Ok((record.location@, record.info_path@, payload_of(record.info_path@))))
            } else {
                init
            },
            ScanOutcome::ParseFailure(path, _) => init.push(Err(path@)),
            ScanOutcome::Unreadable(path, _) => init.push(Err(path@)),
        }
    }
}

/// Whether `verdicts` are the verdicts on the outcomes of a scan: for a
/// record the verdict of the matcher on its absolute location, composed from
/// the volume and the stored location; for any other outcome no.
pub open spec fn are_verdicts<M: Matcher>(
    matcher: &M,
    pattern: &str,
    volume: Seq<char>,
    outcomes: Seq<ScanOutcome>,
    verdicts: Seq<bool>,
) -> bool {
    &&& verdicts.len() == outcomes.len()
    &&& forall|i: int|
        0 <= i < outcomes.len() ==> match outcomes[i] {
            ScanOutcome::Record(record) => is_verdict_of(
                matcher,
                pattern,
                volume_joined(volume, record.location@),
                #[trigger] verdicts[i],
            ),
            _ => !verdicts[i],
        }
}

/// The records among the outcomes of a scan that the pattern selects, and the
/// outcomes that give no location, in the order of the outcomes. The pattern
/// is held against the absolute location of each record, composed from the
/// volume and the stored location; the matcher gives the verdict. A pattern
/// with a NUL character selects nothing.
pub fn select_records<M: Matcher>(
    matcher: &M,
    volume: &str,
    outcomes: &Vec<ScanOutcome>,
    pattern: &str,
) -> (matched: Vec<Result<MatchedItem, String>>)
    ensures
        exists|verdicts: Seq<bool>|
            are_verdicts(matcher, pattern, volume@, outcomes@, verdicts) && match_views(matched@)
                == #[trigger] selection(outcomes@, verdicts),
        (forall|i: int| 0 <= i < outcomes@.len() ==> is_record_path(#[trigger] outcomes@[i].info_path()))
            ==> forall|i: int| 0 <= i < matched@.len() ==> is_selection_result(#[trigger] matched@[i]),
        pattern@.contains('\0') ==> forall|i: int|
            0 <= i < matched@.len() ==> (#[trigger] matched@[i]) is Err,
{
    let mut matched: Vec<Result<MatchedItem, String>> = Vec::new();
    let ghost mut seen: Seq<bool> = Seq::empty();
    let mut k: usize = 0;
    assert(match_views(matched@) =~= selection(outcomes@.take(0), seen));
    while k < outcomes.len()
        invariant
            k <= outcomes.len(),
            are_verdicts(matcher, pattern, volume@, outcomes@.take(k as int), seen),
            match_views(matched@) == selection(outcomes@.take(k as int), seen),
            (forall|i: int|
                0 <= i < outcomes@.len() ==> is_record_path(#[trigger] outcomes@[i].info_path()))
                ==> forall|i: int|
                0 <= i < matched@.len() ==> is_selection_result(#[trigger] matched@[i]),
            pattern@.contains('\0') ==> forall|i: int|
                0 <= i < matched@.len() ==> (#[trigger] matched@[i]) is Err,
        decreases outcomes.len() - k,
    {
        let ghost before = match_views(matched@);
        let ghost next = outcomes@.take(k + 1);
        let ghost earlier = seen;
        let mut verdict = false;
        proof {
            assert(next.drop_last() =~= outcomes@.take(k as int));
            assert(next.last() == outcomes@[k as int]);
            if forall|i: int|
                0 <= i < outcomes@.len() ==> is_record_path(#[trigger] outcomes@[i].info_path()) {
                assert(is_record_path(outcomes@[k as int].info_path()));
            }
        }
        match &outcomes[k] {
            ScanOutcome::Record(record) => {
                let complete = join_volume_and_path(volume, record.location.as_str());
                verdict = path_matches(matcher, pattern, complete.as_str());
                if verdict {
                    let item = matched_item(record);
                    matched.push(Ok(item));
                    assert(match_views(matched@) =~= before.push(
                        Ok((record.location@, record.info_path@, payload_of(record.info_path@))),
                    ));
                }
            },
            ScanOutcome::ParseFailure(path, _) => {
                matched.push(Err(path.clone()));
                assert(match_views(matched@) =~= before.push(Err(path@)));
            },
            ScanOutcome::Unreadable(path, _) => {
                matched.push(Err(path.clone()));
                assert(match_views(matched@) =~= before.push(Err(path@)));
            },
        }
        proof {
            assert(seen.push(verdict).drop_last() =~= seen);
            seen = seen.push(verdict);
            assert forall|i: int| 0 <= i < next.len() implies match next[i] {
                ScanOutcome::Record(record) => is_verdict_of(
                    matcher,
                    pattern,
                    volume_joined(volume@, record.location@),
                    #[trigger] seen[i],
                ),
                _ => !seen[i],
            } by {
                if i < k {
                    assert(next[i] == outcomes@.take(k as int)[i]);
                    assert(seen[i] == earlier[i]);
                }
            }
        }
        k += 1;
    }
    proof {
        assert(outcomes@.take(outcomes.len() as int) =~= outcomes@);
    }
    matched
}

/// What the selection makes of the scans of several trash directories, given
/// the verdicts on the outcomes of each: the selections of the scans, one
/// after the other.
pub open spec fn selections(scans: Seq<Seq<ScanOutcome>>, verdicts: Seq<Seq<bool>>) -> Seq<
    MatchView,
>
    decreases scans.len(),
{
    if scans.len() == 0 || verdicts.len() != scans.len() {
        Seq::empty()
    } else {
        selections(scans.drop_last(), verdicts.drop_last()) + selection(
            scans.last(),
            verdicts.last(),
        )
    }
}

/// Whether `scans` and `verdicts` are, for each of the trash directories in
/// turn, the scan of the directory and the verdicts on its outcomes. A
/// directory is given by its path and its volume.
pub open spec fn are_scans<F: FileSystem, M: Matcher>(
    fs: &F,
    matcher: &M,
    pattern: &str,
    dirs: Seq<(Seq<char>, Seq<char>)>,
    scans: Seq<Seq<ScanOutcome>>,
    verdicts: Seq<Seq<bool>>,
) -> bool {
    &&& scans.len() == dirs.len()
    &&& verdicts.len() == dirs.len()
    &&& forall|d: int|
        0 <= d < dirs.len() ==> is_scan_of(fs, dirs[d].0, #[trigger] scans[d]) && are_verdicts(
            matcher,
            pattern,
            dirs[d].1,
            scans[d],
            verdicts[d],
        )
}

/// Whether `matched` is what the pattern selects from the given trash
/// directories: the selections from the scan of each directory in turn, under
/// the verdicts of the matcher.
pub open spec fn is_matching<F: FileSystem, M: Matcher>(
    fs: &F,
    matcher: &M,
    pattern: &str,
    dirs: Seq<(Seq<char>, Seq<char>)>,
    matched: Seq<MatchView>,
) -> bool {
    exists|scans: Seq<Seq<ScanOutcome>>, verdicts: Seq<Seq<bool>>|
        are_scans(fs, matcher, pattern, dirs, scans, verdicts) && matched
            == #[trigger] selections(scans, verdicts)
}

/// The records of the given trash directories that the pattern selects, and
/// the records that give no location: for each directory in turn what
/// `select_records` makes of its scan. A record that cannot be read, or has
/// no location that can be decoded, is reported by its path and does not end
/// the scan.
pub fn list_trashinfo_matches<F: FileSystem, M: Matcher>(
    fs: &F,
    matcher: &M,
    trash_dirs: &Vec<TrashDir>,
    pattern: &str,
) -> (matched: Vec<Result<MatchedItem, String>>)
    ensures
        is_matching(fs, matcher, pattern, dir_views(trash_dirs@), match_views(matched@)),
        forall|i: int| 0 <= i < matched@.len() ==> is_selection_result(#[trigger] matched@[i]),
        pattern@.contains('\0') ==> forall|i: int|
            0 <= i < matched@.len() ==> (#[trigger] matched@[i]) is Err,
{
    let mut matched: Vec<Result<MatchedItem, String>> = Vec::new();
    let ghost mut scans: Seq<Seq<ScanOutcome>> = Seq::empty();
    let ghost mut verdicts: Seq<Seq<bool>> = Seq::empty();
    let ghost dirs = dir_views(trash_dirs@);
    let mut d: usize = 0;
    assert(match_views(matched@) =~= selections(scans, verdicts));
    while d < trash_dirs.len()
        invariant
            d <= trash_dirs.len(),
            dirs == dir_views(trash_dirs@),
            are_scans(fs, matcher, pattern, dirs.take(d as int), scans, verdicts),
            match_views(matched@) == selections(scans, verdicts),
            forall|i: int| 0 <= i < matched@.len() ==> is_selection_result(#[trigger] matched@[i]),
            pattern@.contains('\0') ==> forall|i: int|
                0 <= i < matched@.len() ==> (#[trigger] matched@[i]) is Err,
        decreases trash_dirs.len() - d,
    {
        let ghost before = match_views(matched@);
        let ghost earlier_scans = scans;
        let ghost earlier_verdicts = verdicts;
        let outcomes = scan_trash_dir(fs, trash_dirs[d].path.as_str());
        let mut found = select_records(
            matcher,
            trash_dirs[d].volume.as_str(),
            &outcomes,
            pattern,
        );
        let ghost added = match_views(found@);
        proof {
            let given = choose|given: Seq<bool>|
                are_verdicts(
                    matcher,
                    pattern,
                    trash_dirs@[d as int].volume@,
                    outcomes@,
                    given,
                ) && match_views(found@) == #[trigger] selection(outcomes@, given);
            scans = scans.push(outcomes@);
            verdicts = verdicts.push(given);
            assert(scans.drop_last() =~= earlier_scans);
            assert(verdicts.drop_last() =~= earlier_verdicts);
            assert(selections(scans, verdicts) == before + added);
            let next = dirs.take(d + 1);
            assert(next[d as int] == (trash_dirs@[d as int].path@, trash_dirs@[d as int].volume@));
            assert forall|j: int| 0 <= j < next.len() implies is_scan_of(
                fs,
                next[j].0,
                #[trigger] scans[j],
            ) && are_verdicts(matcher, pattern, next[j].1, scans[j], verdicts[j]) by {
                if j < d {
                    assert(next[j] == dirs.take(d as int)[j]);
                    assert(scans[j] == earlier_scans[j]);
                    assert(verdicts[j] == earlier_verdicts[j]);
                }
            }
        }
        matched.append(&mut found);
        proof {
            assert(match_views(matched@) =~= before + added);
        }
        d += 1;
    }
    proof {
        assert(dirs.take(trash_dirs.len() as int) =~= dirs);
    }
    matched
}

/// How the removal of a path ends after the plain removal failed with
/// `first`: well, if the recursive removal went well; else with `first`.
pub open spec fn settled(first: CoreError, second: Result<(), CoreError>) -> Result<(), CoreError> {
    match second {
        Ok(_) => Ok(()),
        Err(_) => Err(first),
    }
}

/// How the removal of a path ends after the plain removal failed with
/// `first`.
pub fn settle_removal(first: CoreError, second: Result<(), CoreError>) -> (outcome: Result<
    (),
    CoreError,
>)
    ensures
        outcome == settled(first, second),
{
    match second {
        Ok(_) => Ok(()),
        Err(_) => Err(first),
    }
}

/// Whether `outcome` is how the removal of `path` ends: well, where the file
/// system answers that it removed the file; else what `settled` makes of that
/// failure and of an answer of the file system to the request to remove the
/// directory at `path` with all that it holds.
pub open spec fn is_removal_of<F: FileSystem>(
    fs: &F,
    path: &str,
    outcome: Result<(), CoreError>,
) -> bool {
    exists|first: Result<(), CoreError>|
        #[trigger] call_ensures(F::remove_file, (fs, path), first) && match first {
            Ok(_) => outcome is Ok,
            Err(error) => exists|second: Result<(), CoreError>|
                #[trigger] call_ensures(F::remove_dir_all, (fs, path), second) && outcome
                    == settled(error, second),
        }
}

/// Removes what is at `path`: as a file first, and where that fails, as a
/// directory with all that it holds.
pub fn rm_file2<F: FileSystem>(fs: &F, path: &str) -> (outcome: Result<(), CoreError>)
    ensures
        is_removal_of(fs, path, outcome),
{
    match fs.remove_file(path) {
        Ok(_) => Ok(()),
        Err(first) => settle_removal(first, fs.remove_dir_all(path)),
    }
}

/// Whether something is at a path, from the answer of the file system to the
/// question for the metadata of the path itself.
pub fn is_there(probe: &Result<FileMetadata, CoreError>) -> (there: bool)
    ensures
        there == (*probe is Ok),
{
    match probe {
        Ok(_) => true,
        Err(_) => false,
    }
}

/// Whether `outcome` is how the removal of what may be at `path` ends: well
/// and with nothing removed, where the file system answers the question for
/// the metadata of `path` itself with a failure; else as the removal of
/// `path` ends.
pub open spec fn is_removal_if_there<F: FileSystem>(
    fs: &F,
    path: &str,
    outcome: Result<(), CoreError>,
) -> bool {
    exists|probe: Result<FileMetadata, CoreError>|
        #[trigger] call_ensures(F::symlink_metadata, (fs, path), probe) && match probe {
            Ok(_) => is_removal_of(fs, path, outcome),
            Err(_) => outcome is Ok,
        }
}

/// Removes what is at `path` if anything is there; a symbolic link that
/// leads nowhere counts as being there. Nothing there is no error.
pub fn rm_file_if_exists<F: FileSystem>(fs: &F, path: &str) -> (outcome: Result<(), CoreError>)
    ensures
        is_removal_if_there(fs, path, outcome),
{
    let probe = fs.symlink_metadata(path);
    if is_there(&probe) {
        rm_file2(fs, path)
    } else {
        Ok(())
    }
}

/// What a run of removals wrote to the error stream, and whether a removal
/// step failed.
#[derive(Debug)]
pub struct RemovalReport {
    pub messages: Vec<String>,
    pub had_error: bool,
}

/// The reason that an error gives: for an I/O failure what the system says of
/// it, else the error's own line.
pub fn error_text(error: &CoreError) -> (text: String)
    ensures
        !(error is Io) ==> text@ == error.heading() + error.detail(),
{
    match error {
        CoreError::Io(_, cause) => io_error_text(cause),
        _ => error.message(),
    }
}

/// What the system says of an I/O failure, through the `Display` of
/// `std::io::Error`. The words depend on the platform: nothing is stated of
/// them.
#[verifier::external_body]
pub(crate) fn io_error_text(cause: &std::io::Error) -> (text: String)
{
    cause.to_string()
}

/// What introduces the report of a payload that could not be removed.
pub const PAYLOAD_FAILURE: &'static str = "trash-rm: failed to remove backup file ";

/// What introduces the report of a record that could not be removed.
pub const RECORD_FAILURE: &'static str = "trash-rm: failed to remove trashinfo ";

/// The line that reports a failed removal step: the heading, the path, a
/// colon, and the reason.
pub open spec fn failure_line(heading: Seq<char>, path: Seq<char>, reason: Seq<char>) -> Seq<char> {
    heading + path + ": "@ + reason
}

/// The line that reports a record without a location.
pub open spec fn unparseable_line(info_path: Seq<char>) -> Seq<char> {
    "trash-rm: "@ + info_path + ": unable to parse 'Path'"@
}

/// How the two removal steps of one item went: for each step the reason of
/// its failure, or `None` if it went well.
pub type Steps = (Option<Seq<char>>, Option<Seq<char>>);

/// The lines that the steps of one selected item add to the report.
pub open spec fn item_lines(item: MatchedItem, steps: Steps) -> Seq<Seq<char>> {
    let payload = match steps.0 {
        Some(reason) => seq![failure_line(PAYLOAD_FAILURE@, item.backup_path@, reason)],
        None => Seq::empty(),
    };
    let record = match steps.1 {
        Some(reason) => seq![failure_line(RECORD_FAILURE@, item.info_path@, reason)],
        None => Seq::empty(),
    };
    payload + record
}

/// The lines of the report of a run, given how the steps of each selected
/// item went: in the order of the items, a line for each failed step, and a
/// line for each record without a location.
pub open spec fn report_lines(matched: Seq<Result<MatchedItem, String>>, steps: Seq<Steps>) -> Seq<
    Seq<char>,
>
    decreases matched.len(),
{
    if matched.len() == 0 || steps.len() != matched.len() {
        Seq::empty()
    } else {
        report_lines(matched.drop_last(), steps.drop_last()) + match matched.last() {
            Ok(item) => item_lines(item, steps.last()),
            Err(path) => seq![unparseable_line(path@)],
        }
    }
}

/// Whether a removal step of a selected item failed.
pub open spec fn any_failed(matched: Seq<Result<MatchedItem, String>>, steps: Seq<Steps>) -> bool
    decreases matched.len(),
{
    if matched.len() == 0 || steps.len() != matched.len() {
        false
    } else {
        any_failed(matched.drop_last(), steps.drop_last()) || (matched.last() is Ok && (
        steps.last().0 is Some || steps.last().1 is Some))
    }
}

/// Adds to the report the line of a removal step that failed for `reason`,
/// and marks the run as failed.
pub fn note_failure(report: &mut RemovalReport, heading: &str, path: &str, reason: &str)
    ensures
        final(report).had_error,
        texts(final(report).messages@) == texts(old(report).messages@).push(
            failure_line(heading@, path@, reason@),
        ),
{
    let line = String::from_str(heading).concat(path).concat(": ").concat(reason);
    let ghost before = texts(report.messages@);
    report.messages.push(line);
    report.had_error = true;
    assert(texts(report.messages@) =~= before.push(failure_line(heading@, path@, reason@)));
}

/// Whether `step` tells how a removal step with the given outcome went: no
/// reason for a step that went well, a reason for one that failed; the reason
/// of a failure that is no I/O failure is the error's own line.
pub open spec fn is_step_of(outcome: Result<(), CoreError>, step: Option<Seq<char>>) -> bool {
    match outcome {
        Ok(_) => step is None,
        Err(error) => step is Some && (!(error is Io) ==> step == Some(
            error.heading() + error.detail(),
        )),
    }
}

/// Notes the result of one removal step in the report, and tells the reason
/// of the failure, if it failed.
fn note_step(
    report: &mut RemovalReport,
    heading: &str,
    path: &str,
    outcome: &Result<(), CoreError>,
) -> (reason: Ghost<Option<Seq<char>>>)
    ensures
        is_step_of(*outcome, reason@),
        match reason@ {
            Some(why) => final(report).had_error && texts(final(report).messages@) == texts(
                old(report).messages@,
            ).push(failure_line(heading@, path@, why)),
            None => *final(report) == *old(report),
        },
{
    match outcome {
        Ok(_) => Ghost(None),
        Err(error) => {
            let reason = error_text(error);
            note_failure(report, heading, path, reason.as_str());
            Ghost(Some(reason@))
        },
    }
}

/// Whether `steps` tell how the two removal steps of a selected item went:
/// the removal of the payload, if it is there, and the removal of the
/// record, each an outcome that the file system's answers give.
pub open spec fn are_item_steps<F: FileSystem>(fs: &F, item: MatchedItem, steps: Steps) -> bool {
    exists|payload: &str, first: Result<(), CoreError>, record: &str, second: Result<(), CoreError>|
        #![trigger is_removal_if_there(fs, payload, first), is_removal_of(fs, record, second)]
        payload@ == item.backup_path@ && record@ == item.info_path@ && is_removal_if_there(
            fs,
            payload,
            first,
        ) && is_removal_of(fs, record, second) && is_step_of(first, steps.0) && is_step_of(
            second,
            steps.1,
        )
}

/// Whether `steps` tell, for each result of the selection in turn, how its
/// removal went: for a selected item how its two steps went; for a record
/// without a location that no step was made.
pub open spec fn are_steps<F: FileSystem>(
    fs: &F,
    matched: Seq<Result<MatchedItem, String>>,
    steps: Seq<Steps>,
) -> bool {
    &&& steps.len() == matched.len()
    &&& forall|i: int|
        0 <= i < matched.len() ==> match matched[i] {
            Ok(item) => are_item_steps(fs, item, #[trigger] steps[i]),
            Err(_) => steps[i] == (None::<Seq<char>>, None::<Seq<char>>),
        }
}

/// Removes the selected items: for each, the payload if it is there, then the
/// record. Each step that fails is reported and marks the run as failed; the
/// remaining steps and items are still worked on. A record without a
/// location is reported and is no failure of the run.
pub fn remove_matches<F: FileSystem>(fs: &F, matched: &Vec<Result<MatchedItem, String>>) -> (report:
    RemovalReport)
    ensures
        exists|steps: Seq<Steps>|
            are_steps(fs, matched@, steps) && texts(report.messages@) == #[trigger] report_lines(
                matched@,
                steps,
            ) && report.had_error == any_failed(matched@, steps),
{
    let mut report = RemovalReport { messages: Vec::new(), had_error: false };
    let ghost mut seen: Seq<Steps> = Seq::empty();
    let mut i: usize = 0;
    assert(texts(report.messages@) =~= report_lines(matched@.take(0), seen));
    while i < matched.len()
        invariant
            i <= matched.len(),
            are_steps(fs, matched@.take(i as int), seen),
            texts(report.messages@) == report_lines(matched@.take(i as int), seen),
            report.had_error == any_failed(matched@.take(i as int), seen),
        decreases matched.len() - i,
    {
        let ghost before = texts(report.messages@);
        let ghost next = matched@.take(i + 1);
        let ghost earlier = seen;
        proof {
            assert(next.drop_last() =~= matched@.take(i as int));
            assert(next.last() == matched@[i as int]);
        }
        match &matched[i] {
            Ok(item) => {
                let payload_path = item.backup_path.as_str();
                let record_path = item.info_path.as_str();
                let payload = rm_file_if_exists(fs, payload_path);
                let first = note_step(&mut report, PAYLOAD_FAILURE, payload_path, &payload);
                let record = rm_file2(fs, record_path);
                let second = note_step(&mut report, RECORD_FAILURE, record_path, &record);
                proof {
                    let steps = (first@, second@);
                    assert(seen.push(steps).drop_last() =~= seen);
                    assert(texts(report.messages@) =~= before + item_lines(*item, steps));
                    assert(is_removal_if_there(fs, payload_path, payload) && is_removal_of(
                        fs,
                        record_path,
                        record,
                    ));
                    assert(are_item_steps(fs, *item, steps));
                    seen = seen.push(steps);
                }
            },
            Err(info_path) => {
                let line = String::from_str("trash-rm: ").concat(info_path.as_str()).concat(
                    ": unable to parse 'Path'",
                );
                report.messages.push(line);
                proof {
                    let steps: Steps = (None, None);
                    assert(seen.push(steps).drop_last() =~= seen);
                    assert(texts(report.messages@) =~= before + seq![
                        unparseable_line(info_path@),
                    ]);
                    seen = seen.push(steps);
                }
            },
        }
        proof {
            assert forall|k: int| 0 <= k < next.len() implies match next[k] {
                Ok(item) => are_item_steps(fs, item, #[trigger] seen[k]),
                Err(_) => seen[k] == (None::<Seq<char>>, None::<Seq<char>>),
            } by {
                if k < i {
                    assert(seen[k] == earlier[k]);
                    assert(next[k] == matched@.take(i as int)[k]);
                }
            }
        }
        i += 1;
    }
    proof {
        assert(matched@.take(matched.len() as int) =~= matched@);
    }
    report
}

/// The exit code of a run of removals.
pub fn exit_code(had_error: bool) -> (code: u8)
    ensures
        code == if had_error {
            EXIT_FAILED
        } else {
            EXIT_DONE
        },
{
    if had_error {
        EXIT_FAILED
    } else {
        EXIT_DONE
    }
}

/// What a run wrote to the error stream, and the code it ends with.
#[derive(Debug)]
pub struct RunResult {
    pub stderr: Vec<String>,
    pub exit_code: u8,
}

/// Whether the lines and the exit code are those of a run of removal with
/// the given pattern: the report of the removal of what the pattern selects
/// from the trash directories that removal works on, and 1 if a removal step
/// failed, else 0.
pub open spec fn is_run<F: FileSystem, M: Matcher>(
    fs: &F,
    matcher: &M,
    environ: Environment,
    uid: nat,
    pattern: &str,
    policy: MountPolicy,
    stderr: Seq<Seq<char>>,
    code: u8,
) -> bool {
    exists|dirs: Seq<(Seq<char>, Seq<char>)>, matched: Seq<Result<MatchedItem, String>>, steps: Seq<Steps>|
        #![trigger is_matching(fs, matcher, pattern, dirs, match_views(matched)), report_lines(matched, steps)]
        is_collection(fs, environ, uid, policy, dirs) && is_matching(
            fs,
            matcher,
            pattern,
            dirs,
            match_views(matched),
        ) && (forall|i: int| 0 <= i < matched.len() ==> is_selection_result(#[trigger] matched[i]))
            && are_steps(fs, matched, steps) && stderr == report_lines(matched, steps) && code
            == if any_failed(matched, steps) {
            EXIT_FAILED
        } else {
            EXIT_DONE
        }
}

/// One run of removal. Without a pattern nothing is touched: the usage is
/// written and the run ends with the code for a missing pattern. With a
/// pattern, every record of the user's trash directories that the pattern
/// selects is removed with its payload, and the run ends with 0 if no removal
/// step failed, else with 1.
pub fn run_removal<F: FileSystem, M: Matcher>(
    fs: &F,
    matcher: &M,
    environ: &Environment,
    uid: u32,
    pattern: Option<&str>,
    policy: MountPolicy,
) -> (result: RunResult)
    ensures
        pattern is None ==> result.exit_code == EXIT_NO_PATTERN && result.stderr@.len() == 1
            && result.stderr@[0]@ == USAGE@,
        pattern matches Some(given) ==> is_run(
            fs,
            matcher,
            *environ,
            uid as nat,
            given,
            policy,
            texts(result.stderr@),
            result.exit_code,
        ),
{
    match pattern {
        None => {
            let mut stderr: Vec<String> = Vec::new();
            stderr.push(USAGE.to_owned());
            RunResult { stderr, exit_code: EXIT_NO_PATTERN }
        },
        Some(pattern) => {
            let dirs = collect_trash_dirs(fs, environ, uid, policy);
            let matched = list_trashinfo_matches(fs, matcher, &dirs, pattern);
            let report = remove_matches(fs, &matched);
            proof {
                let steps = choose|steps: Seq<Steps>|
                    are_steps(fs, matched@, steps) && texts(report.messages@)
                        == #[trigger] report_lines(matched@, steps) && report.had_error
                        == any_failed(matched@, steps);
                assert(is_matching(fs, matcher, pattern, dir_views(dirs@), match_views(matched@)));
                assert(texts(report.messages@) == report_lines(matched@, steps));
            }
            RunResult { stderr: report.messages, exit_code: exit_code(report.had_error) }
        },
    }
}

/// Removal through the fallback: where the file system answers every
/// request to remove the directory at `path` with all it holds with success,
/// the removal of `path` ends well, whether or not the removal as a file did.
pub proof fn lemma_fallback_removes<F: FileSystem>(
    fs: &F,
    path: &str,
    outcome: Result<(), CoreError>,
)
    requires
        is_removal_of(fs, path, outcome),
        forall|second: Result<(), CoreError>|
            #[trigger] call_ensures(F::remove_dir_all, (fs, path), second) ==> second is Ok,
    ensures
        outcome is Ok,
{
}

/// A payload that is not there is no error: where the file system answers
/// every question for the metadata of `path` itself with a failure, the
/// removal of what may be at `path` ends well.
pub proof fn lemma_absent_payload_is_no_error<F: FileSystem>(
    fs: &F,
    path: &str,
    outcome: Result<(), CoreError>,
)
    requires
        is_removal_if_there(fs, path, outcome),
        forall|probe: Result<FileMetadata, CoreError>|
            #[trigger] call_ensures(F::symlink_metadata, (fs, path), probe) ==> probe is Err,
    ensures
        outcome is Ok,
{
}

/// Where the file system answers every request to remove a file with
/// success, no removal step of a run fails.
pub proof fn lemma_good_removals_do_not_fail<F: FileSystem>(
    fs: &F,
    matched: Seq<Result<MatchedItem, String>>,
    steps: Seq<Steps>,
)
    requires
        are_steps(fs, matched, steps),
        forall|path: &str, first: Result<(), CoreError>|
            #[trigger] call_ensures(F::remove_file, (fs, path), first) ==> first is Ok,
    ensures
        !any_failed(matched, steps),
    decreases matched.len(),
{
    if matched.len() > 0 {
        let init = matched.drop_last();
        let rest = steps.drop_last();
        assert forall|i: int| 0 <= i < init.len() implies match init[i] {
            Ok(item) => are_item_steps(fs, item, #[trigger] rest[i]),
            Err(_) => rest[i] == (None::<Seq<char>>, None::<Seq<char>>),
        } by {
            assert(init[i] == matched[i]);
            assert(rest[i] == steps[i]);
        }
        lemma_good_removals_do_not_fail(fs, init, rest);
        let last = matched.len() - 1;
        if let Ok(item) = matched[last] {
            assert(are_item_steps(fs, item, steps[last]));
        }
    }
}

/// A run in which the file system answers every request to remove a file
/// with success ends with the code for a run without failure.
pub proof fn lemma_good_run_ends_with_zero<F: FileSystem, M: Matcher>(
    fs: &F,
    matcher: &M,
    environ: Environment,
    uid: nat,
    pattern: &str,
    policy: MountPolicy,
    stderr: Seq<Seq<char>>,
    code: u8,
)
    requires
        is_run(fs, matcher, environ, uid, pattern, policy, stderr, code),
        forall|path: &str, first: Result<(), CoreError>|
            #[trigger] call_ensures(F::remove_file, (fs, path), first) ==> first is Ok,
    ensures
        code == EXIT_DONE,
{
    let (dirs, matched, steps) = choose|
        dirs: Seq<(Seq<char>, Seq<char>)>,
        matched: Seq<Result<MatchedItem, String>>,
        steps: Seq<Steps>,
    |
        #![trigger is_matching(fs, matcher, pattern, dirs, match_views(matched)), report_lines(matched, steps)]
        is_collection(fs, environ, uid, policy, dirs) && is_matching(
            fs,
            matcher,
            pattern,
            dirs,
            match_views(matched),
        ) && (forall|i: int| 0 <= i < matched.len() ==> is_selection_result(#[trigger] matched[i]))
            && are_steps(fs, matched, steps) && stderr == report_lines(matched, steps) && code
            == if any_failed(matched, steps) {
            EXIT_FAILED
        } else {
            EXIT_DONE
        };
    lemma_good_removals_do_not_fail(fs, matched, steps);
}

} // verus!
