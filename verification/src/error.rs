//! What can go wrong while a source is indexed.

use vstd::prelude::*;
use crate::decimal::{digits_of, push_digits};

verus! {

/// Why a container's reader or a decoder gave up on a packet.
#[derive(Clone, Copy, Debug, PartialEq, Eq, Structural)]
pub enum StreamError {
    /// The input ended where more data was expected: no packet is left.
    UnexpectedEof,
    /// Any other failure to read the input.
    Io,
    /// The packet is malformed; the ones after it may still decode.
    Decode,
    /// The reader could not seek.
    Seek,
    /// The container or the codec is not supported.
    Unsupported,
    /// A limit of the reader or the decoder was reached.
    Limit,
    /// The track list changed and the decoders must be made anew.
    ResetRequired,
}

/// The failures that the indexer itself reports, each with what it found.
#[derive(Clone, Copy, Debug, PartialEq, Eq, Structural)]
pub enum Report {
    /// The container names no default track.
    NoDefaultTrack,
    /// The track has this many channels, or an unknown layout, and not two.
    UnsupportedChannels(Option<u32>),
    /// The track does not say at what rate it was sampled.
    UnknownSampleRate,
    /// The loudness analysis has no filter for this sample rate.
    UnsupportedSampleRate(usize),
    /// Not one sample of the track could be decoded.
    NoSamples,
    /// The tags lack a usable track gain, a usable track peak, or both.
    MissingGainTags,
    /// The file's directory has no textual form.
    MissingPath,
    /// The file's name has no textual form.
    MissingFilename,
    /// The stored time of the last run lies outside the calendar.
    TimestampOutOfRange,
    /// A source of the configuration has no `id`.
    MissingSourceId,
    /// The `id` of a source is not a whole number.
    SourceIdNotNumber,
    /// A source of the configuration has no `path`.
    MissingSourcePath,
    /// The `path` of a source is not a text.
    SourcePathNotText,
}

/// Every failure of the library.
#[derive(Clone, Copy, Debug, PartialEq, Eq, Structural)]
pub enum EleanorError {
    LockFailed,
    /// A number does not fit the width it is stored in.
    TryFromIntError,
    /// A text that should be a whole number is not one.
    ParseIntError,
    /// A text holds no decimal number.
    ParseFloatError,
    /// The container's reader or the decoder failed.
    SymponiaError(StreamError),
    /// The tags of a file could not be read.
    LoftyError,
    /// The store refused a read or a write.
    DatabaseError,
    IoError,
    JoinError,
    /// A failure that the indexer found by itself.
    MietteError(Report),
    KdlError,
}

impl StreamError {
    /// The words for the error.
    pub open spec fn text(self) -> Seq<char> {
        match self {
            StreamError::UnexpectedEof => "unexpected end of file"@,
            StreamError::Io => "io error"@,
            StreamError::Decode => "malformed stream"@,
            StreamError::Seek => "seek error"@,
            StreamError::Unsupported => "unsupported feature"@,
            StreamError::Limit => "limit reached"@,
            StreamError::ResetRequired => "decoder needs to be reset"@,
        }
    }

    /// The error in words.
    pub fn message(&self) -> (text: String)
        ensures
            text@ == self.text(),
    {
        match self {
            StreamError::UnexpectedEof => String::from_str("unexpected end of file"),
            StreamError::Io => String::from_str("io error"),
            StreamError::Decode => String::from_str("malformed stream"),
            StreamError::Seek => String::from_str("seek error"),
            StreamError::Unsupported => String::from_str("unsupported feature"),
            StreamError::Limit => String::from_str("limit reached"),
            StreamError::ResetRequired => String::from_str("decoder needs to be reset"),
        }
    }
}

impl Report {
    /// The words for the failure, with what was found.
    pub open spec fn text(self) -> Seq<char> {
        match self {
            Report::NoDefaultTrack => "No default track was found"@,
            Report::UnsupportedChannels(None) => "Unsupported channel configuration: None"@,
            Report::UnsupportedChannels(Some(count)) => "Unsupported channel configuration: Some("@
                + digits_of(count as nat) + ")"@,
            Report::UnknownSampleRate => "Sample rate must be known"@,
            Report::UnsupportedSampleRate(rate) => "Unsupported sample rate: "@ + digits_of(
                rate as nat,
            ),
            Report::NoSamples => "No samples were decoded from input audio"@,
            Report::MissingGainTags =>
                "REPLAYGAIN_TRACK_GAIN and/or REPLAYGAIN_TRACK_PEAK tags were missing"@,
            Report::MissingPath => "Couldn't get path for file"@,
            Report::MissingFilename => "Couldn't get filename for file"@,
            Report::TimestampOutOfRange => "The time of the last index is out of range"@,
            Report::MissingSourceId => "Source is missing an `id` parameter"@,
            Report::SourceIdNotNumber => "Source id must be a number"@,
            Report::MissingSourcePath => "Source is missing a `path` parameter"@,
            Report::SourcePathNotText => "Source path must be a string"@,
        }
    }

    /// The failure in words.
    pub fn message(&self) -> (text: String)
        ensures
            text@ == self.text(),
    {
        match self {
            Report::NoDefaultTrack => String::from_str("No default track was found"),
            Report::UnsupportedChannels(None) => String::from_str(
                "Unsupported channel configuration: None",
            ),
            Report::UnsupportedChannels(Some(count)) => {
                let mut text = String::from_str("Unsupported channel configuration: Some(");
                push_digits(&mut text, *count as u64);
                text.append(")");
                text
            },
            Report::UnknownSampleRate => String::from_str("Sample rate must be known"),
            Report::UnsupportedSampleRate(rate) => {
                let mut text = String::from_str("Unsupported sample rate: ");
                push_digits(&mut text, *rate as u64);
                text
            },
            Report::NoSamples => String::from_str("No samples were decoded from input audio"),
            Report::MissingGainTags => String::from_str(
                "REPLAYGAIN_TRACK_GAIN and/or REPLAYGAIN_TRACK_PEAK tags were missing",
            ),
            Report::MissingPath => String::from_str("Couldn't get path for file"),
            Report::MissingFilename => String::from_str("Couldn't get filename for file"),
            Report::TimestampOutOfRange => String::from_str(
                "The time of the last index is out of range",
            ),
            Report::MissingSourceId => String::from_str("Source is missing an `id` parameter"),
            Report::SourceIdNotNumber => String::from_str("Source id must be a number"),
            Report::MissingSourcePath => String::from_str("Source is missing a `path` parameter"),
            Report::SourcePathNotText => String::from_str("Source path must be a string"),
        }
    }
}

impl EleanorError {
    /// The words for the failure.
    pub open spec fn text(self) -> Seq<char> {
        match self {
            EleanorError::LockFailed => "Couldn't unlock mutex"@,
            EleanorError::TryFromIntError => "Failed to convert from integer"@,
            EleanorError::ParseIntError => "Failed to parse integer"@,
            EleanorError::ParseFloatError => "Failed to parse float"@,
            EleanorError::SymponiaError(error) => "Failed to create probe: "@ + error.text(),
            EleanorError::LoftyError => "Failed to read song metadata"@,
            EleanorError::DatabaseError => "Database error"@,
            EleanorError::IoError => "An IO error occured"@,
            EleanorError::JoinError => "Couldn't join thread"@,
            EleanorError::MietteError(report) => report.text(),
            EleanorError::KdlError => "Error processing KDL"@,
        }
    }

    /// The failure in words.
    pub fn message(&self) -> (text: String)
        ensures
            text@ == self.text(),
    {
        match self {
            EleanorError::LockFailed => String::from_str("Couldn't unlock mutex"),
            EleanorError::TryFromIntError => String::from_str("Failed to convert from integer"),
            EleanorError::ParseIntError => String::from_str("Failed to parse integer"),
            EleanorError::ParseFloatError => String::from_str("Failed to parse float"),
            EleanorError::SymponiaError(error) => {
                let mut text = String::from_str("Failed to create probe: ");
                let cause = error.message();
                text.append(cause.as_str());
                text
            },
            EleanorError::LoftyError => String::from_str("Failed to read song metadata"),
            EleanorError::DatabaseError => String::from_str("Database error"),
            EleanorError::IoError => String::from_str("An IO error occured"),
            EleanorError::JoinError => String::from_str("Couldn't join thread"),
            EleanorError::MietteError(report) => report.message(),
            EleanorError::KdlError => String::from_str("Error processing KDL"),
        }
    }
}

} // verus!
