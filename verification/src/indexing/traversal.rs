//! One traversal of a file's packets, which feeds the checksum and the
//! loudness analysis at once.

use vstd::prelude::*;
use crate::checksum::{adler32, Checksum};
use crate::error::{EleanorError, Report, StreamError};
use crate::media::{Packet, Track};
use crate::replaygain::{
    init_failure, is_stereo, ledger_after, ledger_result, packet_outcome, rate_supported,
    view_of, Ledger, ReplayGain, ReplayGainResult, ReplayGainView,
};

verus! {

/// Where the loudness of a file stands while its packets go by.
pub enum ReplayGainState {
    /// The tags gave the figures; nothing is decoded.
    Finished(ReplayGainResult),
    /// The figures are being measured.
    Computing(ReplayGain),
    /// The measurement could not start or had to stop.
    Failed(EleanorError),
}

/// What a `ReplayGainState` holds.
pub enum StateView {
    Finished(ReplayGainView),
    Computing(Ledger),
    Failed(EleanorError),
}

impl View for ReplayGainState {
    type V = StateView;

    open spec fn view(&self) -> StateView {
        match self {
            ReplayGainState::Finished(figures) => StateView::Finished(figures@),
            ReplayGainState::Computing(analysis) => StateView::Computing(analysis@),
            ReplayGainState::Failed(error) => StateView::Failed(*error),
        }
    }
}

/// Whether a packet of track `packet_track` has to be decoded: only while
/// the loudness is being measured, and only for the measured track.
pub open spec fn state_wants(state: StateView, packet_track: u32) -> bool {
    match state {
        StateView::Computing(ledger) => packet_track == ledger.track_id,
        _ => false,
    }
}

/// The state after a packet of track `packet_track` that decoded as
/// `decoded`. Only a running measurement changes: it counts the samples,
/// passes over a malformed packet, and fails on any other error.
pub open spec fn state_after(
    state: StateView,
    packet_track: u32,
    decoded: Result<usize, StreamError>,
) -> StateView {
    match state {
        StateView::Computing(ledger) => match packet_outcome(
            ledger.track_id,
            packet_track,
            decoded,
        ) {
            Ok(_) => StateView::Computing(ledger_after(ledger, packet_track, decoded)),
            Err(error) => StateView::Failed(error),
        },
        _ => state,
    }
}

/// The figures that a state ends with, given what the analysis measured.
pub open spec fn state_result(state: StateView, measured: (u32, u32)) -> Result<
    ReplayGainView,
    EleanorError,
> {
    match state {
        StateView::Finished(figures) => Ok(figures),
        StateView::Computing(ledger) => ledger_result(ledger, measured),
        StateView::Failed(error) => Err(error),
    }
}

impl ReplayGainState {
    /// Whether `packet` has to be decoded for the loudness.
    pub fn wants(&self, packet: &Packet) -> (wanted: bool)
        ensures
            wanted == state_wants(self@, packet.track_id),
    {
        match self {
            ReplayGainState::Computing(analysis) => analysis.wants(packet),
            _ => false,
        }
    }

    /// Takes in a packet and what decoding it gave. `decoded` is read only
    /// where the packet was wanted.
    pub fn handle_packet(&mut self, packet: &Packet, decoded: Result<usize, StreamError>)
        ensures
            final(self)@ == state_after(old(self)@, packet.track_id, decoded),
    {
        let failure = match self {
            ReplayGainState::Computing(analysis) => match analysis.handle_packet(packet, decoded) {
                Ok(()) => None,
                Err(error) => Some(error),
            },
            _ => None,
        };
        if let Some(error) = failure {
            *self = ReplayGainState::Failed(error);
        }
    }

    /// The figures that the state ends with. `measured` is the gain and the
    /// peak that the analysis gave; it counts only for a running measurement
    /// that has samples.
    pub fn finish(self, measured: (u32, u32)) -> (result: Result<ReplayGainResult, EleanorError>)
        ensures
            view_of(result) == state_result(self@, measured),
    {
        match self {
            ReplayGainState::Finished(figures) => Ok(figures),
            ReplayGainState::Computing(analysis) => analysis.finish(measured),
            ReplayGainState::Failed(error) => Err(error),
        }
    }
}

/// One traversal of a file's packets, which feeds the checksum with every
/// packet and the loudness analysis with those of its track.
pub struct FormatReaderIter {
    error: Option<StreamError>,
    hash: Checksum,
    rg: ReplayGainState,
}

/// What a traversal holds: the error that ended it, if one did, the bytes
/// that the checksum covers, and where the loudness stands.
pub struct Traversal {
    pub error: Option<StreamError>,
    pub bytes: Seq<u8>,
    pub rg: StateView,
}

impl View for FormatReaderIter {
    type V = Traversal;

    closed spec fn view(&self) -> Traversal {
        Traversal { error: self.error, bytes: self.hash@, rg: self.rg@ }
    }
}

/// Why a file cannot be traversed, if it cannot: it has no default track,
/// the track is not stereo, or its sample rate is unknown.
pub open spec fn opening_failure(track: Option<Track>) -> Option<EleanorError> {
    match track {
        None => Some(EleanorError::MietteError(Report::NoDefaultTrack)),
        Some(track) => if !is_stereo(track) {
            Some(EleanorError::MietteError(Report::UnsupportedChannels(track.channels)))
        } else if track.sample_rate is None {
            Some(EleanorError::MietteError(Report::UnknownSampleRate))
        } else {
            None
        },
    }
}

/// Where the loudness of a stereo track with a known sample rate starts:
/// with the figures of the tags if there are any, else with a measurement,
/// which may fail to start.
pub open spec fn opening_state(
    track: Track,
    tagged: Option<ReplayGainView>,
    decoder: Result<(), StreamError>,
) -> StateView {
    match tagged {
        Some(figures) => StateView::Finished(figures),
        None => match init_failure(track.sample_rate->0 as usize, track, decoder) {
            Some(error) => StateView::Failed(error),
            None => StateView::Computing(
                Ledger {
                    track_id: track.id,
                    sample_rate: track.sample_rate->0 as usize,
                    samples: 0,
                },
            ),
        },
    }
}

/// The view of figures that may be missing.
pub open spec fn figures_view(figures: Option<ReplayGainResult>) -> Option<ReplayGainView> {
    match figures {
        Some(figures) => Some(figures@),
        None => None,
    }
}

/// A track that may be missing, by value.
pub open spec fn owned_track(track: Option<&Track>) -> Option<Track> {
    match track {
        Some(track) => Some(*track),
        None => None,
    }
}

/// What reading the next packet means for the traversal: a packet goes on,
/// the end of the input ends it, and any other error ends it and is kept.
pub open spec fn error_after(error: Option<StreamError>, read: Result<Packet, StreamError>) -> Option<
    StreamError,
> {
    match read {
        Ok(_) => error,
        Err(StreamError::UnexpectedEof) => error,
        Err(other) => Some(other),
    }
}

impl FormatReaderIter {
    /// Starts the traversal of a file. `track` is the container's default
    /// track, `rg` the figures that the tags gave, and `decoder` what making
    /// a decoder for the track gave, which is read only where the loudness
    /// has to be measured. A file without a stereo track of known sample
    /// rate is refused, whatever its tags say. A measurement that cannot
    /// start does not stop the traversal: the checksum is still taken.
    pub fn new(track: Option<&Track>, rg: Option<ReplayGainResult>, decoder: Result<
        (),
        StreamError,
    >) -> (made: Result<Self, EleanorError>)
        ensures
            match opening_failure(owned_track(track)) {
                Some(error) => made == Err::<Self, EleanorError>(error),
                None => match made {
                    Ok(iter) => iter@ == (Traversal {
                        error: None,
                        bytes: Seq::empty(),
                        rg: opening_state(*track->0, figures_view(rg), decoder),
                    }),
                    Err(_) => false,
                },
            },
    {
        let Some(track) = track else {
            return Err(EleanorError::MietteError(Report::NoDefaultTrack));
        };
        if track.channels != Some(2u32) {
            return Err(EleanorError::MietteError(Report::UnsupportedChannels(track.channels)));
        }
        let Some(sample_rate) = track.sample_rate else {
            return Err(EleanorError::MietteError(Report::UnknownSampleRate));
        };
        let rg = match rg {
            Some(figures) => ReplayGainState::Finished(figures),
            None => match ReplayGain::init(sample_rate as usize, track, decoder) {
                Ok(analysis) => ReplayGainState::Computing(analysis),
                Err(error) => ReplayGainState::Failed(error),
            },
        };
        Ok(FormatReaderIter { error: None, hash: Checksum::new(), rg })
    }

    /// Takes what the container's reader gave and hands out the packet, if
    /// it is one. After `None` the traversal is over.
    pub fn next<'a>(&mut self, read: Result<Packet<'a>, StreamError>) -> (packet: Option<
        Packet<'a>,
    >)
        ensures
            final(self)@ == (Traversal { error: error_after(old(self)@.error, read), ..old(self)@ }),
            packet == match read {
                Ok(packet) => Some(packet),
                Err(_) => None,
            },
    {
        match read {
            Ok(packet) => Some(packet),
            Err(StreamError::UnexpectedEof) => None,
            Err(error) => {
                self.error = Some(error);
                None
            },
        }
    }

    /// Whether `packet` has to be decoded before it is absorbed.
    pub fn wants(&self, packet: &Packet) -> (wanted: bool)
        ensures
            wanted == state_wants(self@.rg, packet.track_id),
    {
        self.rg.wants(packet)
    }

    /// Takes in one packet: its bytes go into the checksum, whatever track
    /// it belongs to and however the loudness fares, and `decoded`, which is
    /// what decoding it gave, goes to the loudness analysis. `decoded` is
    /// read only where the packet was wanted.
    pub fn absorb(&mut self, packet: &Packet, decoded: Result<usize, StreamError>)
        ensures
            final(self)@ == absorbed(
                old(self)@,
                Fed { track_id: packet.track_id, data: packet.data@, decoded },
            ),
    {
        self.hash.write(packet.data);
        self.rg.handle_packet(packet, decoded);
    }

    /// Whether the samples have to be analysed before the traversal is
    /// processed: only if a measurement ran to the end and has samples.
    pub fn awaits_measurement(&self) -> (awaited: bool)
        ensures
            awaited == (self@.error is None && match self@.rg {
                StateView::Computing(ledger) => ledger.samples > 0,
                _ => false,
            }),
    {
        self.error.is_none() && match &self.rg {
            ReplayGainState::Computing(analysis) => !analysis.is_empty(),
            _ => false,
        }
    }

    /// Ends the traversal. The checksum is there in any case. The loudness
    /// is the error that ended the traversal, if one did, else what the
    /// state ends with. `measured` is the gain and the peak that the
    /// analysis gave; it counts only where a measurement was awaited.
    pub fn process(self, measured: (u32, u32)) -> (outcome: (
        u64,
        Result<ReplayGainResult, EleanorError>,
    ))
        ensures
            outcome.0 == adler32(self@.bytes),
            view_of(outcome.1) == traversal_result(self@, measured),
    {
        let hash = self.hash.finish();
        if let Some(error) = self.error {
            return (hash, Err(EleanorError::SymponiaError(error)));
        }
        (hash, self.rg.finish(measured))
    }
}

/// Loudness is measured on stereo at a known, supported sample rate and on
/// nothing else: a track with any other number of channels is refused
/// before a traversal starts, and a measurement at any other rate fails to
/// start. The tags have no say in either.
pub proof fn lemma_only_stereo_at_a_supported_rate(
    track: Track,
    sample_rate: usize,
    decoder: Result<(), StreamError>,
)
    ensures
        !is_stereo(track) ==> opening_failure(Some(track)) == Some(
            EleanorError::MietteError(Report::UnsupportedChannels(track.channels)),
        ) && init_failure(sample_rate, track, decoder) == opening_failure(Some(track)),
        is_stereo(track) && track.sample_rate is None ==> opening_failure(Some(track)) == Some(
            EleanorError::MietteError(Report::UnknownSampleRate),
        ),
        is_stereo(track) && !rate_supported(sample_rate) ==> init_failure(
            sample_rate,
            track,
            decoder,
        ) == Some(EleanorError::MietteError(Report::UnsupportedSampleRate(sample_rate))),
{
}

/// One packet as the traversal takes it in: its track, its bytes, and what
/// decoding it gave.
pub struct Fed {
    pub track_id: u32,
    pub data: Seq<u8>,
    pub decoded: Result<usize, StreamError>,
}

/// The traversal after one packet: the checksum covers its bytes too, and
/// the loudness has taken what decoding it gave.
pub open spec fn absorbed(traversal: Traversal, packet: Fed) -> Traversal {
    Traversal {
        error: traversal.error,
        bytes: traversal.bytes + packet.data,
        rg: state_after(traversal.rg, packet.track_id, packet.decoded),
    }
}

/// The traversal after a row of packets.
pub open spec fn traversed(traversal: Traversal, packets: Seq<Fed>) -> Traversal
    decreases packets.len(),
{
    if packets.len() == 0 {
        traversal
    } else {
        absorbed(traversed(traversal, packets.drop_last()), packets.last())
    }
}

/// The bytes of a row of packets, one packet after the other.
pub open spec fn payload(packets: Seq<Fed>) -> Seq<u8>
    decreases packets.len(),
{
    if packets.len() == 0 {
        Seq::empty()
    } else {
        payload(packets.drop_last()) + packets.last().data
    }
}

/// The checksum covers every packet, in order, whatever track a packet
/// belongs to and however the loudness fares: a measurement that fails
/// never costs the file its checksum.
pub proof fn lemma_checksum_covers_every_packet(traversal: Traversal, packets: Seq<Fed>)
    ensures
        traversed(traversal, packets).bytes == traversal.bytes + payload(packets),
        traversed(traversal, packets).error == traversal.error,
    decreases packets.len(),
{
    if packets.len() == 0 {
        assert(traversal.bytes + payload(packets) =~= traversal.bytes);
    } else {
        lemma_checksum_covers_every_packet(traversal, packets.drop_last());
        assert(traversal.bytes + payload(packets.drop_last()) + packets.last().data
            =~= traversal.bytes + payload(packets));
    }
}

/// Figures from the tags stand: the traversal asks for no packet to be
/// decoded, and ends with the figures of the tags, whatever the packets
/// hold and whatever a measurement would have given.
pub proof fn lemma_tags_take_precedence(
    traversal: Traversal,
    figures: ReplayGainView,
    packets: Seq<Fed>,
    track_id: u32,
    measured: (u32, u32),
)
    requires
        traversal.rg == StateView::Finished(figures),
        traversal.error is None,
    ensures
        traversed(traversal, packets).rg == StateView::Finished(figures),
        !state_wants(traversed(traversal, packets).rg, track_id),
        traversal_result(traversed(traversal, packets), measured) == Ok::<
            ReplayGainView,
            EleanorError,
        >(figures),
    decreases packets.len(),
{
    if packets.len() > 0 {
        lemma_tags_take_precedence(traversal, figures, packets.drop_last(), track_id, measured);
    }
}

/// A measurement that has failed stays failed, with the failure that it
/// first met.
pub proof fn lemma_failure_is_kept(traversal: Traversal, error: EleanorError, packets: Seq<Fed>)
    requires
        traversal.rg == StateView::Failed(error),
    ensures
        traversed(traversal, packets).rg == StateView::Failed(error),
    decreases packets.len(),
{
    if packets.len() > 0 {
        lemma_failure_is_kept(traversal, error, packets.drop_last());
    }
}

/// The loudness that a traversal ends with.
pub open spec fn traversal_result(traversal: Traversal, measured: (u32, u32)) -> Result<
    ReplayGainView,
    EleanorError,
> {
    match traversal.error {
        Some(error) => Err(EleanorError::SymponiaError(error)),
        None => state_result(traversal.rg, measured),
    }
}

} // verus!
