//! The catalog record of a file.

use vstd::prelude::*;
use crate::config::Source;
use crate::error::{EleanorError, Report};
use crate::indexing::scan::Candidate;
use crate::library::{text_view, Song, SongView};
use crate::media::Tag;
use crate::replaygain::{overlaid, owned, ReplayGainResult, ReplayGainView};

verus! {

/// A number of the tags at the width of the catalog: the 32 bits are kept
/// and read as signed.
pub open spec fn as_stored(number: u32) -> i32 {
    if number <= i32::MAX {
        number as i32
    } else {
        (number - 0x1_0000_0000) as i32
    }
}

fn store(number: u32) -> (stored: i32)
    ensures
        stored == as_stored(number),
{
    if number <= 0x7fff_ffff {
        number as i32
    } else {
        (number as i64 - 0x1_0000_0000) as i32
    }
}

fn store_some(number: Option<u32>) -> (stored: Option<i32>)
    ensures
        stored == stored_number(number),
{
    match number {
        Some(number) => Some(store(number)),
        None => None,
    }
}

/// A number of the tags that may be missing, at the width of the catalog.
pub open spec fn stored_number(number: Option<u32>) -> Option<i32> {
    match number {
        Some(number) => Some(as_stored(number)),
        None => None,
    }
}

fn copy_text(text: &Option<String>) -> (copy: Option<String>)
    ensures
        copy == *text,
{
    match text {
        Some(text) => Some(text.clone()),
        None => None,
    }
}

/// The fields that tags give to a record; a file without tags gives none.
pub open spec fn tag_fields(tags: Option<Tag>) -> Tag {
    match tags {
        Some(tags) => tags,
        None => Tag {
            artist: None,
            album_artist: None,
            title: None,
            album: None,
            genre: None,
            track: None,
            disk: None,
            year: None,
            track_gain: None,
            track_peak: None,
            album_gain: None,
            album_peak: None,
        },
    }
}

/// Why a file cannot become a record, if it cannot: its directory or its
/// name has no textual form, or its checksum or its length does not fit in
/// the 32 signed bits of the catalog.
pub open spec fn song_failure(file: Candidate, hash: u64, duration: u128) -> Option<EleanorError> {
    if file.path is None {
        Some(EleanorError::MietteError(Report::MissingPath))
    } else if file.filename is None {
        Some(EleanorError::MietteError(Report::MissingFilename))
    } else if hash > i32::MAX || duration > i32::MAX {
        Some(EleanorError::TryFromIntError)
    } else {
        None
    }
}

/// The record of a file that can become one. The album's levels of the
/// tags are laid over the loudness, however that was found.
pub open spec fn song_of(
    file: Candidate,
    source: Source,
    hash: u64,
    tags: Option<Tag>,
    duration: u128,
    rg: ReplayGainView,
) -> SongView {
    let fields = tag_fields(tags);
    let loudness = overlaid(rg, tags);
    SongView {
        path: file.path->0@,
        filename: file.filename->0@,
        source_id: source.id,
        hash: hash as i32,
        artist: text_view(fields.artist),
        album_artist: text_view(fields.album_artist),
        name: text_view(fields.title),
        album: text_view(fields.album),
        genres: text_view(fields.genre),
        track: stored_number(fields.track),
        disc: stored_number(fields.disk),
        year: stored_number(fields.year),
        duration: duration as i32,
        rg_track_gain: Some(loudness.track_gain),
        rg_track_peak: Some(loudness.track_peak),
        rg_album_gain: loudness.album_gain,
        rg_album_peak: loudness.album_peak,
    }
}

/// The key of a record depends on the audio alone: two files with the same
/// checksum get the same key, wherever they lie, whatever their tags say
/// and however loud they are.
pub proof fn lemma_same_audio_same_key(
    hash: u64,
    one: (Candidate, Source, Option<Tag>, u128, ReplayGainView),
    other: (Candidate, Source, Option<Tag>, u128, ReplayGainView),
)
    ensures
        song_of(one.0, one.1, hash, one.2, one.3, one.4).hash == song_of(
            other.0,
            other.1,
            hash,
            other.2,
            other.3,
            other.4,
        ).hash,
{
}

/// Makes the catalog record of a file from where it lies, the source it
/// belongs to, the checksum of its audio, its tags, its length in
/// milliseconds and its loudness.
pub fn song(
    file: &Candidate,
    source: &Source,
    hash: u64,
    tags: Option<&Tag>,
    duration: u128,
    rg: ReplayGainResult,
) -> (made: Result<Song, EleanorError>)
    ensures
        match song_failure(*file, hash, duration) {
            Some(error) => made == Err::<Song, EleanorError>(error),
            None => match made {
                Ok(song) => song@ == song_of(*file, *source, hash, owned(tags), duration, rg@),
                Err(_) => false,
            },
        },
{
    let Some(path) = copy_text(&file.path) else {
        return Err(EleanorError::MietteError(Report::MissingPath));
    };
    let Some(filename) = copy_text(&file.filename) else {
        return Err(EleanorError::MietteError(Report::MissingFilename));
    };
    if hash > 0x7fff_ffff || duration > 0x7fff_ffff {
        return Err(EleanorError::TryFromIntError);
    }
    let (artist, album_artist, name, album, genres, track, disc, year) = match tags {
        Some(tags) => (
            copy_text(&tags.artist),
            copy_text(&tags.album_artist),
            copy_text(&tags.title),
            copy_text(&tags.album),
            copy_text(&tags.genre),
            store_some(tags.track),
            store_some(tags.disk),
            store_some(tags.year),
        ),
        None => (None, None, None, None, None, None, None, None),
    };
    let rg = rg.overlay(tags);
    Ok(
        Song {
            path,
            filename,
            source_id: source.id,
            hash: hash as i32,
            artist,
            album_artist,
            name,
            album,
            genres,
            track,
            disc,
            year,
            duration: duration as i32,
            rg_track_gain: Some(rg.track_gain),
            rg_track_peak: Some(rg.track_peak),
            rg_album_gain: rg.album_gain,
            rg_album_peak: rg.album_peak,
        },
    )
}

} // verus!
