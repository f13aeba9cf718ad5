use eleanor::error::{EleanorError, Report, StreamError};

#[test]
fn every_failure_has_its_words() {
    for (failure, words) in [
        (EleanorError::LockFailed, "Couldn't unlock mutex"),
        (EleanorError::TryFromIntError, "Failed to convert from integer"),
        (EleanorError::ParseIntError, "Failed to parse integer"),
        (EleanorError::ParseFloatError, "Failed to parse float"),
        (EleanorError::LoftyError, "Failed to read song metadata"),
        (EleanorError::DatabaseError, "Database error"),
        (EleanorError::IoError, "An IO error occured"),
        (EleanorError::JoinError, "Couldn't join thread"),
        (EleanorError::KdlError, "Error processing KDL"),
        (
            EleanorError::SymponiaError(StreamError::UnexpectedEof),
            "Failed to create probe: unexpected end of file",
        ),
        (EleanorError::SymponiaError(StreamError::Io), "Failed to create probe: io error"),
        (EleanorError::SymponiaError(StreamError::Decode), "Failed to create probe: malformed stream"),
        (EleanorError::SymponiaError(StreamError::Seek), "Failed to create probe: seek error"),
        (
            EleanorError::SymponiaError(StreamError::Unsupported),
            "Failed to create probe: unsupported feature",
        ),
        (EleanorError::SymponiaError(StreamError::Limit), "Failed to create probe: limit reached"),
        (
            EleanorError::SymponiaError(StreamError::ResetRequired),
            "Failed to create probe: decoder needs to be reset",
        ),
    ] {
        assert_eq!(failure.message(), words);
    }
}

#[test]
fn every_report_has_its_words() {
    for (report, words) in [
        (Report::NoDefaultTrack, "No default track was found"),
        (Report::UnsupportedChannels(None), "Unsupported channel configuration: None"),
        (Report::UnsupportedChannels(Some(0)), "Unsupported channel configuration: Some(0)"),
        (Report::UnsupportedChannels(Some(1)), "Unsupported channel configuration: Some(1)"),
        (Report::UnsupportedChannels(Some(6)), "Unsupported channel configuration: Some(6)"),
        (
            Report::UnsupportedChannels(Some(u32::MAX)),
            "Unsupported channel configuration: Some(4294967295)",
        ),
        (Report::UnknownSampleRate, "Sample rate must be known"),
        (Report::UnsupportedSampleRate(0), "Unsupported sample rate: 0"),
        (Report::UnsupportedSampleRate(44101), "Unsupported sample rate: 44101"),
        (Report::NoSamples, "No samples were decoded from input audio"),
        (
            Report::MissingGainTags,
            "REPLAYGAIN_TRACK_GAIN and/or REPLAYGAIN_TRACK_PEAK tags were missing",
        ),
        (Report::MissingPath, "Couldn't get path for file"),
        (Report::MissingFilename, "Couldn't get filename for file"),
        (Report::TimestampOutOfRange, "The time of the last index is out of range"),
        (Report::MissingSourceId, "Source is missing an `id` parameter"),
        (Report::SourceIdNotNumber, "Source id must be a number"),
        (Report::MissingSourcePath, "Source is missing a `path` parameter"),
        (Report::SourcePathNotText, "Source path must be a string"),
    ] {
        assert_eq!(report.message(), words);
        assert_eq!(EleanorError::MietteError(report).message(), words);
        assert_eq!(report.message(), format!("{}", words));
    }
    let rate = usize::MAX;
    assert_eq!(
        Report::UnsupportedSampleRate(rate).message(),
        format!("Unsupported sample rate: {rate}"),
    );
    assert_eq!(
        Report::UnsupportedChannels(Some(6)).message(),
        format!("Unsupported channel configuration: {:?}", Some(6)),
    );
}
