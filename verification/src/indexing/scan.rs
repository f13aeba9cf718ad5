//! Which files of a source a run takes: the audio files, and of those the
//! ones that changed since the last run.

use vstd::prelude::*;
use crate::decimal::{format_i64, lemma_written_number_reads_back, number, parse_i64, text_of};
use crate::error::{EleanorError, Report};

verus! {

/// The top-level media type that `mime_guess` names first for a path, going
/// by its extension alone: `audio` for `a/b.flac`, nothing for a path whose
/// extension it does not know.
pub uninterp spec fn guessed_type(path: Seq<char>) -> Option<Seq<char>>;

/// `mime_guess::from_path`, then `MimeGuess::first` and `Mime::type_`: the
/// top-level type of the first media type in the crate's table for the
/// path's extension, as text. The table is fixed and no disk is read, so
/// the same path always gives the same answer.
#[verifier::external_body]
fn guess_type(path: &str) -> (kind: Option<String>)
    ensures
        match kind {
            Some(kind) => guessed_type(path@) == Some(kind@),
            None => guessed_type(path@) is None,
        },
{
    match mime_guess::from_path(path).first() {
        Some(mime) => Some(mime.type_().as_str().to_string()),
        None => None,
    }
}

/// Whether a path is taken for an audio file.
pub open spec fn is_audio_path(path: Seq<char>) -> bool {
    guessed_type(path) == Some("audio"@)
}

/// Whether the file at `path` is taken for an audio file, by its name alone.
pub fn is_audio(path: &str) -> (audio: bool)
    ensures
        audio == is_audio_path(path@),
{
    match guess_type(path) {
        Some(kind) => kind == String::from_str("audio"),
        None => false,
    }
}

/// Whether a directory entry is a candidate for indexing: anything but a
/// directory whose name says audio.
pub fn is_candidate(is_dir: bool, path: &str) -> (candidate: bool)
    ensures
        candidate == (!is_dir && is_audio_path(path@)),
{
    !is_dir && is_audio(path)
}

/// A file found under a source's root: its directory and its name as text,
/// where they have a textual form, and when it was last modified, in
/// nanoseconds from the Unix epoch, where the file system says.
#[derive(Debug)]
pub struct Candidate {
    pub path: Option<String>,
    pub filename: Option<String>,
    pub modified: Option<i128>,
}

/// Whether a moment given in nanoseconds lies before one given in seconds,
/// both counted from the Unix epoch.
pub open spec fn modified_before(modified: i128, indexed_ts: i64) -> bool {
    modified < indexed_ts * 1_000_000_000
}

/// Whether a file is passed over. A forced run passes over nothing. Any
/// other run passes over the files that were last modified before
/// `indexed_ts`, the time of the last successful run, and those of which
/// it cannot be known when they were modified.
pub open spec fn is_skipped(file: Candidate, force: bool, indexed_ts: i64) -> bool {
    !force && match file.modified {
        Some(modified) => modified_before(modified, indexed_ts),
        None => true,
    }
}

/// Whether a file is passed over by a run: see `is_skipped`. A file that
/// was modified at `indexed_ts` or later is never passed over, and without
/// `force` a file that was modified before it always is.
pub fn should_skip(file: &Candidate, force: bool, indexed_ts: i64) -> (skip: bool)
    ensures
        skip == is_skipped(*file, force, indexed_ts),
{
    if force {
        return false;
    }
    match file.modified {
        Some(modified) => {
            let cutoff: i128 = indexed_ts as i128 * 1_000_000_000;
            modified < cutoff
        },
        None => true,
    }
}

/// Whether a Unix timestamp lies in the calendar of the `time` crate, which
/// runs from the first second of the year -9999 to the last of the year
/// 9999.
pub open spec fn in_calendar(timestamp: i64) -> bool {
    -377_705_116_800 <= timestamp <= 253_402_300_799
}

/// `time::OffsetDateTime::from_unix_timestamp`: whether it returns a date
/// and no range error. It accepts the timestamps from midnight of its
/// smallest date to the last second of its largest.
#[verifier::external_body]
fn calendar_reaches(timestamp: i64) -> (reached: bool)
    ensures
        reached == in_calendar(timestamp),
{
    time::OffsetDateTime::from_unix_timestamp(timestamp).is_ok()
}

/// The time of a source's last successful run, in seconds from the Unix
/// epoch, as the store's text gives it. A source without one counts as
/// indexed at the epoch. The text must be a whole number that the calendar
/// reaches.
pub open spec fn stored_time(last_indexed: Option<Seq<char>>) -> Result<i64, EleanorError> {
    let seconds = match last_indexed {
        Some(text) => number(text),
        None => Some(0i64),
    };
    match seconds {
        Some(seconds) => if in_calendar(seconds) {
            Ok(seconds)
        } else {
            Err(EleanorError::MietteError(Report::TimestampOutOfRange))
        },
        None => Err(EleanorError::ParseIntError),
    }
}

/// The view of a stored text that may be missing.
pub open spec fn stored_text(text: Option<&str>) -> Option<Seq<char>> {
    match text {
        Some(text) => Some(text@),
        None => None,
    }
}

/// Reads the time of a source's last successful run from what the store
/// holds for it. Without a stored time every file counts as modified since.
pub fn indexed_ts(last_indexed: Option<&str>) -> (seconds: Result<i64, EleanorError>)
    ensures
        seconds == stored_time(stored_text(last_indexed)),
        last_indexed is None ==> seconds == Ok::<i64, EleanorError>(0),
{
    let parsed = match last_indexed {
        Some(text) => parse_i64(text),
        None => Some(0),
    };
    let Some(seconds) = parsed else {
        return Err(EleanorError::ParseIntError);
    };
    if calendar_reaches(seconds) {
        Ok(seconds)
    } else {
        Err(EleanorError::MietteError(Report::TimestampOutOfRange))
    }
}

/// The text that the store keeps as a source's time of last run, for a run
/// that ended `now` seconds after the Unix epoch. Read back, it gives `now`
/// again as long as the calendar reaches it.
pub fn stamp(now: i64) -> (text: String)
    ensures
        text@ == text_of(now as int),
        stored_time(Some(text@)) == if in_calendar(now) {
            Ok::<i64, EleanorError>(now)
        } else {
            Err(EleanorError::MietteError(Report::TimestampOutOfRange))
        },
{
    format_i64(now)
}

/// A run that follows a run stamped at `now` reads that time back, passes
/// over every file that was last modified before it, and takes every file
/// that was modified at that time or later.
pub proof fn lemma_next_run_takes_what_changed(file: Candidate, now: i64)
    requires
        in_calendar(now),
        file.modified is Some,
    ensures
        stored_time(Some(text_of(now as int))) == Ok::<i64, EleanorError>(now),
        is_skipped(file, false, now) <==> file.modified->0 < now * 1_000_000_000,
{
    lemma_written_number_reads_back(now);
}

} // verus!
