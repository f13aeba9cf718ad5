//! The catalog: its records, and what the store does with a batch of them.

use vstd::prelude::*;
use crate::replaygain::{level_view, Level, LevelView};

verus! {

/// One record of the catalog. The checksum of the audio is its key, so a
/// file that is renamed, moved or given other tags keeps its record.
#[derive(Debug)]
pub struct Song {
    pub path: String,
    pub filename: String,
    pub source_id: u32,
    pub hash: i32,
    pub artist: Option<String>,
    pub album_artist: Option<String>,
    pub name: Option<String>,
    pub album: Option<String>,
    pub genres: Option<String>,
    pub track: Option<i32>,
    pub disc: Option<i32>,
    pub year: Option<i32>,
    /// The length of the audio in milliseconds.
    pub duration: i32,
    pub rg_track_gain: Option<Level>,
    pub rg_track_peak: Option<Level>,
    pub rg_album_gain: Option<Level>,
    pub rg_album_peak: Option<Level>,
}

/// What a `Song` holds.
pub struct SongView {
    pub path: Seq<char>,
    pub filename: Seq<char>,
    pub source_id: u32,
    pub hash: i32,
    pub artist: Option<Seq<char>>,
    pub album_artist: Option<Seq<char>>,
    pub name: Option<Seq<char>>,
    pub album: Option<Seq<char>>,
    pub genres: Option<Seq<char>>,
    pub track: Option<i32>,
    pub disc: Option<i32>,
    pub year: Option<i32>,
    pub duration: i32,
    pub rg_track_gain: Option<LevelView>,
    pub rg_track_peak: Option<LevelView>,
    pub rg_album_gain: Option<LevelView>,
    pub rg_album_peak: Option<LevelView>,
}

/// The view of a text that may be missing.
pub open spec fn text_view(text: Option<String>) -> Option<Seq<char>> {
    match text {
        Some(text) => Some(text@),
        None => None,
    }
}

impl View for Song {
    type V = SongView;

    open spec fn view(&self) -> SongView {
        SongView {
            path: self.path@,
            filename: self.filename@,
            source_id: self.source_id,
            hash: self.hash,
            artist: text_view(self.artist),
            album_artist: text_view(self.album_artist),
            name: text_view(self.name),
            album: text_view(self.album),
            genres: text_view(self.genres),
            track: self.track,
            disc: self.disc,
            year: self.year,
            duration: self.duration,
            rg_track_gain: level_view(self.rg_track_gain),
            rg_track_peak: level_view(self.rg_track_peak),
            rg_album_gain: level_view(self.rg_album_gain),
            rg_album_peak: level_view(self.rg_album_peak),
        }
    }
}

/// The columns of a record.
#[derive(Clone, Copy, Debug, PartialEq, Eq, Structural)]
pub enum Column {
    Path,
    Filename,
    SourceId,
    Hash,
    Artist,
    AlbumArtist,
    Name,
    Album,
    Duration,
    Genres,
    Track,
    Disc,
    Year,
    RgTrackGain,
    RgTrackPeak,
    RgAlbumGain,
    RgAlbumPeak,
}

/// Whether a column takes the new value when a record with the same
/// checksum is already there. The key never does, nor does where the file
/// was first found; what the tags and the audio say does.
pub open spec fn is_updated(column: Column) -> bool {
    match column {
        Column::Path | Column::Filename | Column::SourceId | Column::Hash => false,
        _ => true,
    }
}

/// The columns that the store is told to update on a conflict, in the
/// order in which it is told.
pub open spec fn updated_columns() -> Seq<Column> {
    seq![
        Column::Artist,
        Column::AlbumArtist,
        Column::Name,
        Column::Album,
        Column::Duration,
        Column::Genres,
        Column::Track,
        Column::Disc,
        Column::Year,
        Column::RgTrackGain,
        Column::RgTrackPeak,
        Column::RgAlbumGain,
        Column::RgAlbumPeak,
    ]
}

/// The column that every record is found by, and on which two records
/// conflict.
pub fn conflict_column() -> (column: Column)
    ensures
        column == Column::Hash,
        !is_updated(column),
{
    Column::Hash
}

/// The columns to update where a record with the same checksum exists:
/// each column that is updated, once.
pub fn update_columns() -> (columns: Vec<Column>)
    ensures
        columns@ == updated_columns(),
        forall|column: Column| columns@.contains(column) <==> is_updated(column),
        columns@.no_duplicates(),
{
    let mut columns = Vec::new();
    columns.push(Column::Artist);
    columns.push(Column::AlbumArtist);
    columns.push(Column::Name);
    columns.push(Column::Album);
    columns.push(Column::Duration);
    columns.push(Column::Genres);
    columns.push(Column::Track);
    columns.push(Column::Disc);
    columns.push(Column::Year);
    columns.push(Column::RgTrackGain);
    columns.push(Column::RgTrackPeak);
    columns.push(Column::RgAlbumGain);
    columns.push(Column::RgAlbumPeak);
    proof {
        assert(columns@ =~= updated_columns());
        assert forall|column: Column| is_updated(column) implies columns@.contains(column) by {
            match column {
                Column::Artist => assert(columns@[0] == column),
                Column::AlbumArtist => assert(columns@[1] == column),
                Column::Name => assert(columns@[2] == column),
                Column::Album => assert(columns@[3] == column),
                Column::Duration => assert(columns@[4] == column),
                Column::Genres => assert(columns@[5] == column),
                Column::Track => assert(columns@[6] == column),
                Column::Disc => assert(columns@[7] == column),
                Column::Year => assert(columns@[8] == column),
                Column::RgTrackGain => assert(columns@[9] == column),
                Column::RgTrackPeak => assert(columns@[10] == column),
                Column::RgAlbumGain => assert(columns@[11] == column),
                Column::RgAlbumPeak => assert(columns@[12] == column),
                _ => {},
            }
        }
    }
    columns
}

/// The value that a column keeps or takes on a conflict.
pub open spec fn settle<T>(column: Column, kept: T, offered: T) -> T {
    if is_updated(column) {
        offered
    } else {
        kept
    }
}

/// The record that the store holds after `offered` met `kept`, a record
/// with the same checksum.
pub open spec fn merged(kept: SongView, offered: SongView) -> SongView {
    SongView {
        path: settle(Column::Path, kept.path, offered.path),
        filename: settle(Column::Filename, kept.filename, offered.filename),
        source_id: settle(Column::SourceId, kept.source_id, offered.source_id),
        hash: settle(Column::Hash, kept.hash, offered.hash),
        artist: settle(Column::Artist, kept.artist, offered.artist),
        album_artist: settle(Column::AlbumArtist, kept.album_artist, offered.album_artist),
        name: settle(Column::Name, kept.name, offered.name),
        album: settle(Column::Album, kept.album, offered.album),
        genres: settle(Column::Genres, kept.genres, offered.genres),
        track: settle(Column::Track, kept.track, offered.track),
        disc: settle(Column::Disc, kept.disc, offered.disc),
        year: settle(Column::Year, kept.year, offered.year),
        duration: settle(Column::Duration, kept.duration, offered.duration),
        rg_track_gain: settle(Column::RgTrackGain, kept.rg_track_gain, offered.rg_track_gain),
        rg_track_peak: settle(Column::RgTrackPeak, kept.rg_track_peak, offered.rg_track_peak),
        rg_album_gain: settle(Column::RgAlbumGain, kept.rg_album_gain, offered.rg_album_gain),
        rg_album_peak: settle(Column::RgAlbumPeak, kept.rg_album_peak, offered.rg_album_peak),
    }
}

/// The catalog after one record was written to it: a record with a new
/// checksum is added, one with a known checksum is merged into the record
/// that is there.
pub open spec fn upserted(catalog: Map<i32, SongView>, song: SongView) -> Map<i32, SongView> {
    if catalog.dom().contains(song.hash) {
        catalog.insert(song.hash, merged(catalog[song.hash], song))
    } else {
        catalog.insert(song.hash, song)
    }
}

/// The catalog after a batch of records was written to it, one after the
/// other.
pub open spec fn upserted_all(catalog: Map<i32, SongView>, songs: Seq<SongView>) -> Map<i32, SongView>
    decreases songs.len(),
{
    if songs.len() == 0 {
        catalog
    } else {
        upserted(upserted_all(catalog, songs.drop_last()), songs.last())
    }
}

/// Every record of the catalog lies under its own checksum.
pub open spec fn keyed_by_checksum(catalog: Map<i32, SongView>) -> bool {
    forall|hash: i32| #[trigger] catalog.dom().contains(hash) ==> catalog[hash].hash == hash
}

/// Writing a record keeps every record under its own checksum, and adds at
/// most the one checksum that was written.
pub proof fn lemma_upsert_keeps_keys(catalog: Map<i32, SongView>, song: SongView)
    requires
        keyed_by_checksum(catalog),
    ensures
        keyed_by_checksum(upserted(catalog, song)),
        upserted(catalog, song).dom() == catalog.dom().insert(song.hash),
{
}

/// The same audio under two names is one record: the second write adds
/// nothing to the catalog. The record keeps the place where the audio was
/// first found and has what the second file's tags and audio said.
pub proof fn lemma_same_audio_one_record(catalog: Map<i32, SongView>, first: SongView, second: SongView)
    requires
        first.hash == second.hash,
    ensures
        upserted(upserted(catalog, first), second).dom() == upserted(catalog, first).dom(),
        upserted(upserted(catalog, first), second)[second.hash] == merged(
            upserted(catalog, first)[first.hash],
            second,
        ),
        upserted(upserted(catalog, first), second)[second.hash].path == upserted(
            catalog,
            first,
        )[first.hash].path,
        upserted(upserted(catalog, first), second)[second.hash].artist == second.artist,
{
    let once = upserted(catalog, first);
    assert(once.dom().contains(second.hash));
    assert(upserted(once, second).dom() =~= once.dom());
}

/// A batch adds to the catalog exactly the checksums of its records,
/// however often one of them occurs in it.
pub proof fn lemma_batch_adds_its_checksums(catalog: Map<i32, SongView>, songs: Seq<SongView>)
    ensures
        forall|hash: i32|
            upserted_all(catalog, songs).dom().contains(hash) <==> catalog.dom().contains(hash) || (
            exists|i: int| 0 <= i < songs.len() && (#[trigger] songs[i]).hash == hash),
    decreases songs.len(),
{
    if songs.len() > 0 {
        let before = songs.drop_last();
        lemma_batch_adds_its_checksums(catalog, before);
        let last = songs.last();
        assert forall|hash: i32|
            upserted_all(catalog, songs).dom().contains(hash) <==> catalog.dom().contains(hash) || (
            exists|i: int| 0 <= i < songs.len() && (#[trigger] songs[i]).hash == hash) by {
            if upserted_all(catalog, songs).dom().contains(hash) {
                if hash == last.hash {
                    assert(songs[songs.len() - 1].hash == hash);
                } else if !catalog.dom().contains(hash) {
                    let i = choose|i: int| 0 <= i < before.len() && (#[trigger] before[i]).hash == hash;
                    assert(songs[i].hash == hash);
                }
            }
            if exists|i: int| 0 <= i < songs.len() && (#[trigger] songs[i]).hash == hash {
                let i = choose|i: int| 0 <= i < songs.len() && (#[trigger] songs[i]).hash == hash;
                if i < before.len() {
                    assert(before[i].hash == hash);
                }
            }
        }
    }
}

} // verus!
