use eleanor::config::Source;
use eleanor::error::{EleanorError, Report, StreamError};
use eleanor::indexing::record::song;
use eleanor::indexing::run::{collect, Action, IndexRun, Outcome};
use eleanor::indexing::scan::{
    indexed_ts, is_audio, is_candidate, should_skip, stamp, Candidate,
};
use eleanor::indexing::traversal::FormatReaderIter;
use eleanor::library::Song;
use eleanor::media::{Packet, Tag, Track};
use eleanor::replaygain::{Level, ReplayGainResult};

fn stereo(id: u32) -> Track {
    Track { id, sample_rate: Some(44100), channels: Some(2) }
}

fn tags(track_gain: Option<&str>, track_peak: Option<&str>) -> Tag {
    Tag {
        artist: Some("Artist".to_string()),
        album_artist: Some("Various".to_string()),
        title: Some("Title".to_string()),
        album: Some("Album".to_string()),
        genre: Some("Genre".to_string()),
        track: Some(3),
        disk: Some(1),
        year: Some(1999),
        track_gain: track_gain.map(String::from),
        track_peak: track_peak.map(String::from),
        album_gain: None,
        album_peak: None,
    }
}

fn tagged() -> ReplayGainResult {
    ReplayGainResult::try_from(Some(&tags(Some("-8.97 dB"), Some("0.93")))).unwrap()
}

fn measured(gain: f32, peak: f32) -> (u32, u32) {
    (gain.to_bits(), peak.to_bits())
}

fn refusal(made: Result<FormatReaderIter, EleanorError>) -> EleanorError {
    match made {
        Ok(_) => panic!("the traversal started"),
        Err(error) => error,
    }
}

fn start(track: &Track, rg: Option<ReplayGainResult>) -> FormatReaderIter {
    match FormatReaderIter::new(Some(track), rg, Ok(())) {
        Ok(iter) => iter,
        Err(error) => panic!("{error:?}"),
    }
}

fn levels(result: &ReplayGainResult) -> (String, String) {
    let show = |level: &Level| match level {
        Level::Tagged(number) => number.as_str().to_string(),
        Level::Measured(bits) => format!("{}", f32::from_bits(*bits)),
    };
    (show(&result.track_gain), show(&result.track_peak))
}

#[test]
fn a_file_without_a_default_track_is_refused() {
    assert_eq!(
        refusal(FormatReaderIter::new(None, None, Ok(()))),
        EleanorError::MietteError(Report::NoDefaultTrack),
    );
    assert_eq!(
        refusal(FormatReaderIter::new(None, Some(tagged()), Ok(()))),
        EleanorError::MietteError(Report::NoDefaultTrack),
    );
}

#[test]
fn mono_and_surround_are_refused_whatever_the_tags_say() {
    for channels in [None, Some(1), Some(6)] {
        let track = Track { id: 0, sample_rate: Some(44100), channels };
        let expected = EleanorError::MietteError(Report::UnsupportedChannels(channels));
        assert_eq!(refusal(FormatReaderIter::new(Some(&track), None, Ok(()))), expected);
        assert_eq!(refusal(FormatReaderIter::new(Some(&track), Some(tagged()), Ok(()))), expected);
    }
}

#[test]
fn an_unknown_sample_rate_is_refused_whatever_the_tags_say() {
    let track = Track { id: 0, sample_rate: None, channels: Some(2) };
    let expected = EleanorError::MietteError(Report::UnknownSampleRate);
    assert_eq!(refusal(FormatReaderIter::new(Some(&track), None, Ok(()))), expected);
    assert_eq!(refusal(FormatReaderIter::new(Some(&track), Some(tagged()), Ok(()))), expected);
}

#[test]
fn figures_from_tags_are_never_measured_again() {
    let mut iter = start(&stereo(0), Some(tagged()));
    let packets: [&[u8]; 3] = [&[1, 2, 3], &[4, 5], &[6]];
    for data in packets {
        let packet = iter.next(Ok(Packet { track_id: 0, data })).unwrap();
        assert!(!iter.wants(&packet));
        iter.absorb(&packet, Err(StreamError::Io));
    }
    assert!(iter.next(Err(StreamError::UnexpectedEof)).is_none());
    assert!(!iter.awaits_measurement());
    let (hash, rg) = iter.process(measured(1.0, 1.0));
    assert_eq!(hash, u64::from(adler::adler32_slice(&[1, 2, 3, 4, 5, 6])));
    assert_eq!(levels(&rg.unwrap()), ("-8.97".to_string(), "0.93".to_string()));
}

#[test]
fn without_tags_the_loudness_is_measured() {
    let mut iter = start(&stereo(5), None);
    let own = iter.next(Ok(Packet { track_id: 5, data: &[1, 2, 3] })).unwrap();
    assert!(iter.wants(&own));
    assert!(!iter.awaits_measurement());
    iter.absorb(&own, Ok(2304));
    let other = iter.next(Ok(Packet { track_id: 6, data: &[4, 5] })).unwrap();
    assert!(!iter.wants(&other));
    iter.absorb(&other, Ok(1));
    assert!(iter.next(Err(StreamError::UnexpectedEof)).is_none());
    assert!(iter.awaits_measurement());
    let (hash, rg) = iter.process(measured(-6.5, 0.5));
    assert_eq!(hash, u64::from(adler::adler32_slice(&[1, 2, 3, 4, 5])));
    assert_eq!(levels(&rg.unwrap()), ("-6.5".to_string(), "0.5".to_string()));
}

#[test]
fn packets_of_other_tracks_alone_give_no_loudness_but_a_checksum() {
    let mut iter = start(&stereo(5), None);
    let other = Packet { track_id: 6, data: &[9, 9, 9] };
    iter.absorb(&other, Ok(100));
    assert!(!iter.awaits_measurement());
    let (hash, rg) = iter.process(measured(-6.5, 0.5));
    assert_eq!(hash, u64::from(adler::adler32_slice(&[9, 9, 9])));
    assert_eq!(rg.unwrap_err(), EleanorError::MietteError(Report::NoSamples));
}

#[test]
fn a_measurement_that_cannot_start_leaves_the_checksum() {
    let odd = Track { id: 0, sample_rate: Some(44101), channels: Some(2) };
    let mut iter = start(&odd, None);
    let packet = Packet { track_id: 0, data: &[1, 2, 3] };
    assert!(!iter.wants(&packet));
    iter.absorb(&packet, Ok(10));
    let (hash, rg) = iter.process(measured(0.0, 0.0));
    assert_eq!(hash, u64::from(adler::adler32_slice(&[1, 2, 3])));
    assert_eq!(rg.unwrap_err(), EleanorError::MietteError(Report::UnsupportedSampleRate(44101)));
}

#[test]
fn a_missing_decoder_fails_the_loudness_only_where_it_is_needed() {
    let mut iter = match FormatReaderIter::new(Some(&stereo(0)), None, Err(StreamError::Unsupported)) {
        Ok(iter) => iter,
        Err(error) => panic!("{error:?}"),
    };
    iter.absorb(&Packet { track_id: 0, data: &[1] }, Ok(10));
    let (hash, rg) = iter.process(measured(0.0, 0.0));
    assert_eq!(hash, u64::from(adler::adler32_slice(&[1])));
    assert_eq!(rg.unwrap_err(), EleanorError::SymponiaError(StreamError::Unsupported));

    let with_tags = FormatReaderIter::new(Some(&stereo(0)), Some(tagged()), Err(StreamError::Unsupported));
    let (_, rg) = with_tags.ok().unwrap().process(measured(0.0, 0.0));
    assert_eq!(levels(&rg.unwrap()).0, "-8.97");
}

#[test]
fn a_malformed_packet_is_hashed_and_passed_over() {
    let mut iter = start(&stereo(0), None);
    iter.absorb(&Packet { track_id: 0, data: &[1, 2] }, Err(StreamError::Decode));
    assert!(iter.wants(&Packet { track_id: 0, data: &[] }));
    iter.absorb(&Packet { track_id: 0, data: &[3] }, Ok(1152));
    let (hash, rg) = iter.process(measured(-1.0, 0.25));
    assert_eq!(hash, u64::from(adler::adler32_slice(&[1, 2, 3])));
    assert_eq!(levels(&rg.unwrap()), ("-1".to_string(), "0.25".to_string()));
}

#[test]
fn a_failed_measurement_stops_asking_but_the_checksum_goes_on() {
    let mut iter = start(&stereo(0), None);
    iter.absorb(&Packet { track_id: 0, data: &[1, 2] }, Ok(1152));
    iter.absorb(&Packet { track_id: 0, data: &[3] }, Err(StreamError::ResetRequired));
    let later = Packet { track_id: 0, data: &[4, 5] };
    assert!(!iter.wants(&later));
    iter.absorb(&later, Ok(1152));
    assert!(!iter.awaits_measurement());
    let (hash, rg) = iter.process(measured(-1.0, 0.25));
    assert_eq!(hash, u64::from(adler::adler32_slice(&[1, 2, 3, 4, 5])));
    assert_eq!(rg.unwrap_err(), EleanorError::SymponiaError(StreamError::ResetRequired));
}

#[test]
fn the_end_of_the_input_is_no_failure() {
    let mut iter = start(&stereo(0), Some(tagged()));
    assert!(iter.next(Err(StreamError::UnexpectedEof)).is_none());
    let (hash, rg) = iter.process(measured(0.0, 0.0));
    assert_eq!(hash, 1);
    assert!(rg.is_ok());
}

#[test]
fn any_other_read_error_fails_the_file_and_leaves_the_checksum() {
    for error in [
        StreamError::Io,
        StreamError::Decode,
        StreamError::Seek,
        StreamError::Unsupported,
        StreamError::Limit,
        StreamError::ResetRequired,
    ] {
        let mut iter = start(&stereo(0), Some(tagged()));
        iter.absorb(&Packet { track_id: 0, data: &[7, 7] }, Ok(0));
        assert!(iter.next(Err(error)).is_none());
        assert!(!iter.awaits_measurement());
        let (hash, rg) = iter.process(measured(0.0, 0.0));
        assert_eq!(hash, u64::from(adler::adler32_slice(&[7, 7])));
        assert_eq!(rg.unwrap_err(), EleanorError::SymponiaError(error));
    }
}

#[test]
fn audio_is_told_by_the_extension() {
    for path in ["a.flac", "/music/b.mp3", "c.OGG", "dir.d/e.wav", "f.m4a", "g.opus"] {
        assert!(is_audio(path), "{path}");
        assert!(is_candidate(false, path), "{path}");
        assert!(!is_candidate(true, path), "{path}");
    }
    for path in ["a.txt", "cover.jpg", "movie.mkv", "flac", "noext", "", ".flac", "x.unknownext"] {
        assert!(!is_audio(path), "{path}");
        assert!(!is_candidate(false, path), "{path}");
    }
}

fn modified_at(modified: Option<i128>) -> Candidate {
    Candidate { path: Some("/music".to_string()), filename: Some("a.flac".to_string()), modified }
}

#[test]
fn a_forced_run_skips_nothing() {
    assert!(!should_skip(&modified_at(Some(0)), true, 1_700_000_000));
    assert!(!should_skip(&modified_at(Some(i128::MIN)), true, i64::MAX));
    assert!(!should_skip(&modified_at(None), true, 0));
}

#[test]
fn files_older_than_the_last_run_are_skipped() {
    let last_run = 1_700_000_000i64;
    let at = i128::from(last_run) * 1_000_000_000;
    assert!(should_skip(&modified_at(Some(at - 1)), false, last_run));
    assert!(!should_skip(&modified_at(Some(at)), false, last_run));
    assert!(!should_skip(&modified_at(Some(at + 1)), false, last_run));
    assert!(should_skip(&modified_at(Some(0)), false, last_run));
    assert!(should_skip(&modified_at(Some(-1)), false, 0));
    assert!(!should_skip(&modified_at(Some(0)), false, 0));
    assert!(should_skip(&modified_at(Some(-5_000_000_001)), false, -5));
    assert!(!should_skip(&modified_at(Some(-5_000_000_000)), false, -5));
    assert!(!should_skip(&modified_at(Some(i128::MAX)), false, i64::MAX));
    assert!(should_skip(&modified_at(Some(i128::MIN)), false, i64::MIN));
}

#[test]
fn a_file_of_unknown_age_is_passed_over_unless_the_run_is_forced() {
    assert!(should_skip(&modified_at(None), false, 0));
    assert!(should_skip(&modified_at(None), false, i64::MIN));
    assert!(!should_skip(&modified_at(None), true, i64::MIN));
}

#[test]
fn a_run_after_a_first_run_takes_only_what_changed_since() {
    let first_run = 1_708_714_420i64;
    let stored = stamp(first_run);
    let cutoff = indexed_ts(Some(&stored)).unwrap();
    assert_eq!(cutoff, first_run);
    let second = |seconds: i64| i128::from(seconds) * 1_000_000_000;
    let ages = [second(first_run) - 1, second(first_run), second(first_run) + 1, 0, second(first_run + 86_400)];
    let taken: Vec<bool> = ages.iter().map(|age| !should_skip(&modified_at(Some(*age)), false, cutoff)).collect();
    assert_eq!(taken, vec![false, true, true, false, true]);
}

#[test]
fn a_source_that_was_never_indexed_counts_from_the_epoch() {
    assert_eq!(indexed_ts(None), Ok(0));
}

#[test]
fn the_stored_time_is_read_as_seconds() {
    assert_eq!(indexed_ts(Some("0")), Ok(0));
    assert_eq!(indexed_ts(Some("1708714420")), Ok(1_708_714_420));
    assert_eq!(indexed_ts(Some("-86400")), Ok(-86_400));
}

#[test]
fn a_stored_time_that_is_no_number_is_refused() {
    for text in ["", "yesterday", "1708714420.5", " 17", "99999999999999999999"] {
        assert_eq!(indexed_ts(Some(text)), Err(EleanorError::ParseIntError), "{text}");
    }
}

#[test]
fn a_stored_time_beyond_the_calendar_is_refused() {
    for text in ["9223372036854775807", "-9223372036854775808", "253402300800", "-377705116801"] {
        assert_eq!(
            indexed_ts(Some(text)),
            Err(EleanorError::MietteError(Report::TimestampOutOfRange)),
        );
        assert!(time::OffsetDateTime::from_unix_timestamp(text.parse().unwrap()).is_err());
    }
}

#[test]
fn the_calendar_runs_from_the_year_minus_9999_to_the_year_9999() {
    assert_eq!(indexed_ts(Some("253402300799")), Ok(253_402_300_799));
    assert_eq!(indexed_ts(Some("-377705116800")), Ok(-377_705_116_800));
    let first = time::OffsetDateTime::from_unix_timestamp(-377_705_116_800).unwrap();
    assert_eq!((first.year(), first.ordinal(), first.hour()), (-9999, 1, 0));
    let last = time::OffsetDateTime::from_unix_timestamp(253_402_300_799).unwrap();
    assert_eq!((last.year(), last.ordinal(), last.hour(), last.second()), (9999, 365, 23, 59));
}

#[test]
fn a_stamp_is_the_time_in_decimal() {
    assert_eq!(stamp(0), "0");
    assert_eq!(stamp(1_708_714_420), "1708714420");
    assert_eq!(stamp(-86_400), "-86400");
    assert_eq!(stamp(i64::MAX), "9223372036854775807");
    assert_eq!(stamp(i64::MIN), "-9223372036854775808");
    for now in [0, 1, -1, 9, 10, 99, 100, 1_708_714_420, -377_705_116_800, 253_402_300_799] {
        assert_eq!(stamp(now), now.to_string());
        assert_eq!(indexed_ts(Some(&stamp(now))), Ok(now));
    }
}

fn candidate() -> Candidate {
    Candidate {
        path: Some("/music/album".to_string()),
        filename: Some("01.flac".to_string()),
        modified: Some(0),
    }
}

fn source() -> Source {
    Source { id: 4, name: "local".to_string(), path: "/music".to_string() }
}

#[test]
fn a_record_takes_its_fields_from_file_tags_and_audio() {
    let tags = tags(Some("-8.97 dB"), Some("0.93"));
    let made = song(&candidate(), &source(), 0x1234_5678, Some(&tags), 215_000, tagged()).unwrap();
    assert_eq!(made.path, "/music/album");
    assert_eq!(made.filename, "01.flac");
    assert_eq!(made.source_id, 4);
    assert_eq!(made.hash, 0x1234_5678);
    assert_eq!(made.artist.as_deref(), Some("Artist"));
    assert_eq!(made.album_artist.as_deref(), Some("Various"));
    assert_eq!(made.name.as_deref(), Some("Title"));
    assert_eq!(made.album.as_deref(), Some("Album"));
    assert_eq!(made.genres.as_deref(), Some("Genre"));
    assert_eq!(made.track, Some(3));
    assert_eq!(made.disc, Some(1));
    assert_eq!(made.year, Some(1999));
    assert_eq!(made.duration, 215_000);
    match (made.rg_track_gain, made.rg_track_peak) {
        (Some(Level::Tagged(gain)), Some(Level::Tagged(peak))) => {
            assert_eq!(gain.as_str(), "-8.97");
            assert_eq!(peak.as_str(), "0.93");
        }
        _ => panic!("the levels of the tags are missing"),
    }
    assert!(made.rg_album_gain.is_none());
    assert!(made.rg_album_peak.is_none());
}

#[test]
fn a_record_without_tags_has_only_what_the_file_gives() {
    let rg = ReplayGainResult {
        track_gain: Level::Measured((-3.0f32).to_bits()),
        track_peak: Level::Measured(0.5f32.to_bits()),
        album_gain: None,
        album_peak: None,
    };
    let made = song(&candidate(), &source(), 1, None, 0, rg).unwrap();
    assert_eq!(made.hash, 1);
    assert_eq!(made.duration, 0);
    assert!(made.artist.is_none() && made.album_artist.is_none() && made.name.is_none());
    assert!(made.album.is_none() && made.genres.is_none());
    assert!(made.track.is_none() && made.disc.is_none() && made.year.is_none());
    match made.rg_track_gain {
        Some(Level::Measured(bits)) => assert_eq!(f32::from_bits(bits), -3.0),
        _ => panic!("the measured gain is missing"),
    }
}

#[test]
fn album_levels_of_the_tags_are_laid_over_a_measurement() {
    let mut tags = tags(None, Some("0.5"));
    tags.album_gain = Some("-7.10 dB".to_string());
    tags.album_peak = Some("not a number".to_string());
    assert!(ReplayGainResult::try_from(Some(&tags)).is_err());
    let rg = ReplayGainResult {
        track_gain: Level::Measured((-3.0f32).to_bits()),
        track_peak: Level::Measured(0.5f32.to_bits()),
        album_gain: None,
        album_peak: None,
    };
    let made = song(&candidate(), &source(), 1, Some(&tags), 0, rg).unwrap();
    match (made.rg_track_gain, made.rg_track_peak) {
        (Some(Level::Measured(gain)), Some(Level::Measured(peak))) => {
            assert_eq!(f32::from_bits(gain), -3.0);
            assert_eq!(f32::from_bits(peak), 0.5);
        }
        _ => panic!("the measured levels are missing"),
    }
    match made.rg_album_gain {
        Some(Level::Tagged(gain)) => assert_eq!(gain.as_str(), "-7.10"),
        _ => panic!("the album gain of the tags is missing"),
    }
    assert!(made.rg_album_peak.is_none());
}

#[test]
fn numbers_of_the_tags_keep_their_bits() {
    let mut tags = tags(None, None);
    tags.track = Some(u32::MAX);
    tags.disk = Some(0x8000_0000);
    tags.year = Some(0x7fff_ffff);
    let made = song(&candidate(), &source(), 1, Some(&tags), 0, tagged()).unwrap();
    assert_eq!(made.track, Some(-1));
    assert_eq!(made.disc, Some(i32::MIN));
    assert_eq!(made.year, Some(i32::MAX));
}

#[test]
fn a_file_without_a_textual_place_is_refused() {
    let nowhere = Candidate { path: None, filename: Some("01.flac".to_string()), modified: None };
    assert_eq!(
        song(&nowhere, &source(), 1, None, 0, tagged()).unwrap_err(),
        EleanorError::MietteError(Report::MissingPath),
    );
    let nameless = Candidate { path: Some("/music".to_string()), filename: None, modified: None };
    assert_eq!(
        song(&nameless, &source(), 1, None, 0, tagged()).unwrap_err(),
        EleanorError::MietteError(Report::MissingFilename),
    );
    let neither = Candidate { path: None, filename: None, modified: None };
    assert_eq!(
        song(&neither, &source(), u64::MAX, None, u128::MAX, tagged()).unwrap_err(),
        EleanorError::MietteError(Report::MissingPath),
    );
}

#[test]
fn a_checksum_or_a_length_beyond_the_stored_width_is_refused() {
    let top = 0x7fff_ffffu64;
    assert_eq!(song(&candidate(), &source(), top, None, 0, tagged()).unwrap().hash, i32::MAX);
    assert_eq!(
        song(&candidate(), &source(), top + 1, None, 0, tagged()).unwrap_err(),
        EleanorError::TryFromIntError,
    );
    assert_eq!(
        song(&candidate(), &source(), 0xffff_ffff, None, 0, tagged()).unwrap_err(),
        EleanorError::TryFromIntError,
    );
    let longest = 0x7fff_ffffu128;
    assert_eq!(song(&candidate(), &source(), 1, None, longest, tagged()).unwrap().duration, i32::MAX);
    assert_eq!(
        song(&candidate(), &source(), 1, None, longest + 1, tagged()).unwrap_err(),
        EleanorError::TryFromIntError,
    );
    assert_eq!(
        song(&candidate(), &source(), 1, None, u128::MAX, tagged()).unwrap_err(),
        EleanorError::TryFromIntError,
    );
}

fn record(hash: u64, filename: &str) -> Song {
    let file = Candidate {
        path: Some("/music".to_string()),
        filename: Some(filename.to_string()),
        modified: None,
    };
    song(&file, &source(), hash, None, 1000, tagged()).unwrap()
}

fn hashes(songs: &[Song]) -> Vec<i32> {
    songs.iter().map(|song| song.hash).collect()
}

#[test]
fn the_same_audio_under_two_names_has_one_key() {
    let bytes: &[u8] = &[1, 2, 3, 4];
    let mut keys = Vec::new();
    for (name, tag) in [("a.flac", tags(Some("-1 dB"), Some("1"))), ("b/c.mp3", tags(None, None))] {
        let rg = ReplayGainResult::try_from(Some(&tag)).ok();
        let mut iter = start(&stereo(0), rg);
        iter.absorb(&Packet { track_id: 0, data: bytes }, Ok(64));
        let (hash, rg) = iter.process(measured(-2.0, 0.5));
        let file = Candidate {
            path: Some("/x".to_string()),
            filename: Some(name.to_string()),
            modified: None,
        };
        keys.push(song(&file, &source(), hash, Some(&tag), 10, rg.unwrap()).unwrap().hash);
    }
    assert_eq!(keys[0], keys[1]);
}

#[test]
fn a_batch_gathers_its_records_in_order() {
    let outcomes: Vec<Outcome> = vec![Ok(Some(record(3, "c"))), Ok(None), Ok(Some(record(1, "a"))), Ok(None)];
    assert_eq!(hashes(&collect(outcomes).unwrap()), vec![3, 1]);
    assert!(collect(Vec::new()).unwrap().is_empty());
    assert!(collect(vec![Ok(None), Ok(None)]).unwrap().is_empty());
}

#[test]
fn one_failure_fails_the_batch_with_the_first_failure() {
    let outcomes: Vec<Outcome> = vec![
        Ok(Some(record(3, "c"))),
        Err(EleanorError::MietteError(Report::UnsupportedChannels(Some(6)))),
        Ok(Some(record(1, "a"))),
        Err(EleanorError::LoftyError),
    ];
    assert_eq!(
        collect(outcomes).unwrap_err(),
        EleanorError::MietteError(Report::UnsupportedChannels(Some(6))),
    );
    assert_eq!(collect(vec![Err(EleanorError::IoError)]).unwrap_err(), EleanorError::IoError);
}

fn is_done(action: &Action, end: Result<(), EleanorError>) -> bool {
    matches!(action, Action::Done(found) if *found == end)
}

#[test]
fn a_batch_is_written_and_then_stamped() {
    let (mut run, first) = IndexRun::begin(vec![Ok(Some(record(3, "c"))), Ok(None), Ok(Some(record(1, "a")))]);
    match first {
        Action::Upsert(songs) => assert_eq!(hashes(&songs), vec![3, 1]),
        other => panic!("{other:?}"),
    }
    assert!(matches!(run.advance(Ok(())), Action::Stamp));
    assert!(is_done(&run.advance(Ok(())), Ok(())));
    assert!(is_done(&run.advance(Ok(())), Ok(())));
    assert!(is_done(&run.advance(Err(EleanorError::DatabaseError)), Ok(())));
}

#[test]
fn a_batch_without_records_is_only_stamped() {
    let (mut run, first) = IndexRun::begin(vec![Ok(None), Ok(None)]);
    assert!(matches!(first, Action::Stamp));
    assert!(is_done(&run.advance(Ok(())), Ok(())));
    let (mut run, first) = IndexRun::begin(Vec::new());
    assert!(matches!(first, Action::Stamp));
    assert!(is_done(&run.advance(Err(EleanorError::DatabaseError)), Err(EleanorError::DatabaseError)));
}

#[test]
fn a_batch_with_an_unsupported_file_writes_nothing() {
    let failure = EleanorError::MietteError(Report::UnsupportedChannels(Some(6)));
    let (mut run, first) = IndexRun::begin(vec![Ok(Some(record(3, "c"))), Err(failure), Ok(Some(record(1, "a")))]);
    assert!(is_done(&first, Err(failure)));
    for answer in [Ok(()), Err(EleanorError::DatabaseError), Ok(())] {
        assert!(is_done(&run.advance(answer), Err(failure)));
    }
}

#[test]
fn a_store_that_refuses_the_records_is_not_stamped() {
    let (mut run, first) = IndexRun::begin(vec![Ok(Some(record(3, "c")))]);
    assert!(matches!(first, Action::Upsert(_)));
    assert!(is_done(&run.advance(Err(EleanorError::DatabaseError)), Err(EleanorError::DatabaseError)));
    assert!(is_done(&run.advance(Ok(())), Err(EleanorError::DatabaseError)));
}

#[test]
fn a_store_that_refuses_the_stamp_fails_the_run() {
    let (mut run, _) = IndexRun::begin(vec![Ok(Some(record(3, "c")))]);
    assert!(matches!(run.advance(Ok(())), Action::Stamp));
    assert!(is_done(&run.advance(Err(EleanorError::DatabaseError)), Err(EleanorError::DatabaseError)));
}
