//! Indexing audio files into a catalog that is keyed by content.
//!
//! A file is traversed once. Every packet goes into an Adler-32 checksum,
//! which becomes the key of the file's record, and the packets of the
//! default track go into a loudness analysis, unless the file's tags
//! already state the track's gain and peak. A failure of the loudness
//! never costs the checksum. The records of a source are written back all
//! or nothing, and the time of the run is kept only after they are in, so a
//! later run can pass over what has not changed since.
//!
//! The library decides and keeps the books; it reads no file and touches
//! no sample. Whoever drives it opens the files, decodes the packets that
//! the library asks for, runs the loudness analysis on the samples, and
//! carries out the writes that the library orders.

pub mod checksum;
pub mod config;
pub mod decimal;
pub mod error;
pub mod fetching;
pub mod indexing;
pub mod library;
pub mod media;
pub mod replaygain;
