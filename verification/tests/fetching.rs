use eleanor::checksum::Checksum;
use eleanor::error::StreamError;
use eleanor::fetching::{hash_next, year, IndexMode, Preparation};
use eleanor::media::Packet;

#[test]
fn each_mode_prepares_the_store_in_its_way() {
    assert_eq!(IndexMode::Purge.preparation(), Preparation::DeleteRecords);
    assert_eq!(IndexMode::New.preparation(), Preparation::LoadFilenames);
    assert_eq!(IndexMode::Initial.preparation(), Preparation::Nothing);
}

#[test]
fn only_a_run_for_new_files_leaves_known_names_out() {
    let existing = vec!["a.flac".to_string(), "b.mp3".to_string()];
    assert!(IndexMode::New.leaves_out(&existing, "a.flac"));
    assert!(IndexMode::New.leaves_out(&existing, "b.mp3"));
    assert!(!IndexMode::New.leaves_out(&existing, "c.ogg"));
    assert!(!IndexMode::New.leaves_out(&existing, "A.flac"));
    assert!(!IndexMode::New.leaves_out(&existing, ""));
    assert!(!IndexMode::New.leaves_out(&Vec::new(), "a.flac"));
    for mode in [IndexMode::Purge, IndexMode::Initial] {
        assert!(!mode.leaves_out(&existing, "a.flac"));
        assert!(!mode.leaves_out(&existing, "c.ogg"));
    }
}

#[test]
fn year_zero_is_no_year() {
    assert_eq!(year(None), None);
    assert_eq!(year(Some(0)), None);
    assert_eq!(year(Some(1)), Some(1));
    assert_eq!(year(Some(1999)), Some(1999));
    assert_eq!(year(Some(u32::MAX)), Some(-1));
}

#[test]
fn a_whole_file_is_hashed_until_the_reader_gives_no_packet() {
    let mut hash = Checksum::new();
    assert!(hash_next(&mut hash, Ok(Packet { track_id: 0, data: &[1, 2, 3] })));
    assert!(hash_next(&mut hash, Ok(Packet { track_id: 9, data: &[4] })));
    assert!(!hash_next(&mut hash, Err(StreamError::UnexpectedEof)));
    assert_eq!(hash.finish(), u64::from(adler::adler32_slice(&[1, 2, 3, 4])));
    for error in [StreamError::Io, StreamError::Decode, StreamError::ResetRequired] {
        let mut hash = Checksum::new();
        assert!(!hash_next(&mut hash, Err(error)));
        assert_eq!(hash.finish(), 1);
    }
}
