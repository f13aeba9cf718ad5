use eleanor::library::{conflict_column, update_columns, Column};

#[test]
fn records_conflict_on_the_checksum() {
    assert_eq!(conflict_column(), Column::Hash);
}

#[test]
fn a_conflict_updates_what_tags_and_audio_say() {
    assert_eq!(
        update_columns(),
        vec![
            Column::Artist,
            Column::AlbumArtist,
            Column::Name,
            Column::Album,
            Column::Duration,
            Column::Genres,
            Column::Track,
            Column::Disc,
            Column::Year,
            Column::RgTrackGain,
            Column::RgTrackPeak,
            Column::RgAlbumGain,
            Column::RgAlbumPeak,
        ],
    );
}

#[test]
fn a_conflict_never_touches_the_key_or_the_place() {
    let updated = update_columns();
    for kept in [Column::Hash, Column::Path, Column::Filename, Column::SourceId] {
        assert!(!updated.contains(&kept));
    }
}
