//! What the library reads of an audio file: the selected track, its packets
//! and the fields of its tags.

use vstd::prelude::*;

verus! {

/// The track of a container that is decoded.
#[derive(Clone, Copy, Debug, PartialEq, Eq, Structural)]
pub struct Track {
    pub id: u32,
    /// Samples per second and channel, if the container says.
    pub sample_rate: Option<u32>,
    /// How many channels the layout has, if the container says.
    pub channels: Option<u32>,
}

/// One chunk of encoded audio, as the container's reader hands it out.
#[derive(Clone, Copy, Debug)]
pub struct Packet<'a> {
    /// The track that the packet belongs to.
    pub track_id: u32,
    pub data: &'a [u8],
}

/// The fields of a file's tags that the catalog keeps.
#[derive(Debug)]
pub struct Tag {
    pub artist: Option<String>,
    pub album_artist: Option<String>,
    pub title: Option<String>,
    pub album: Option<String>,
    pub genre: Option<String>,
    pub track: Option<u32>,
    pub disk: Option<u32>,
    pub year: Option<u32>,
    /// The four loudness tags, as the text that the file holds.
    pub track_gain: Option<String>,
    pub track_peak: Option<String>,
    pub album_gain: Option<String>,
    pub album_peak: Option<String>,
}

} // verus!
