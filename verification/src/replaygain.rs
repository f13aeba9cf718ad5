//! Loudness figures: what the tags say, what was measured, and which of the
//! two a file ends up with.

use vstd::prelude::*;
use crate::decimal::{is_digit, number, parse_i64, push_char, unsigned};
use crate::error::{EleanorError, Report, StreamError};
use crate::media::{Packet, Tag, Track};

verus! {

/// What `char::is_numeric` answers for a character: whether Unicode puts it
/// in one of its three categories of numbers.
pub uninterp spec fn unicode_numeric(c: char) -> bool;

/// `char::is_numeric`: whether the character is a number to Unicode. The
/// ten digits `0` to `9` are.
#[verifier::external_body]
fn is_numeric(c: char) -> (numeric: bool)
    ensures
        numeric == unicode_numeric(c),
        is_digit(c) ==> numeric,
{
    c.is_numeric()
}

/// The characters of a tag value that may belong to its number.
pub open spec fn is_kept(c: char) -> bool {
    unicode_numeric(c) || c == '-' || c == '+' || c == '.'
}

/// A tag value without everything that cannot belong to its number.
pub open spec fn stripped(text: Seq<char>) -> Seq<char> {
    text.filter(|c: char| is_kept(c))
}

/// A decimal literal: an optional sign, then digits with at most one point
/// among them, and at least one digit.
pub open spec fn is_decimal(text: Seq<char>) -> bool {
    let body = unsigned(text);
    &&& forall|i: int| 0 <= i < body.len() ==> is_digit(#[trigger] body[i]) || body[i] == '.'
    &&& exists|i: int| 0 <= i < body.len() && is_digit(#[trigger] body[i])
    &&& forall|i: int, j: int|
        0 <= i < j < body.len() ==> !(#[trigger] body[i] == '.' && #[trigger] body[j] == '.')
}

/// A decimal literal taken from a tag.
#[derive(Debug)]
pub struct Decimal {
    text: String,
}

impl View for Decimal {
    type V = Seq<char>;

    closed spec fn view(&self) -> Seq<char> {
        self.text@
    }
}

impl Decimal {
    #[verifier::type_invariant]
    spec fn well_formed(self) -> bool {
        is_decimal(self.text@)
    }

    /// The literal as text.
    pub fn as_str(&self) -> (text: &str)
        ensures
            text@ == self@,
            is_decimal(text@),
    {
        proof {
            use_type_invariant(self);
        }
        self.text.as_str()
    }
}

/// A decimal literal without its point.
pub open spec fn unpointed(text: Seq<char>) -> Seq<char> {
    text.filter(|c: char| c != '.')
}

/// How many characters follow the first point of a text; none if it has no
/// point.
pub open spec fn after_point(text: Seq<char>) -> nat
    decreases text.len(),
{
    if text.len() == 0 {
        0
    } else if text.drop_last().contains('.') {
        after_point(text.drop_last()) + 1
    } else {
        0
    }
}

/// A decimal literal as a whole number and a count of decimal places, if
/// the whole number fits in 64 bits: `-8.97` is -897 with two places.
pub open spec fn scaled_value(text: Seq<char>) -> Option<(i64, usize)> {
    match number(unpointed(text)) {
        Some(digits) => Some((digits, after_point(text) as usize)),
        None => None,
    }
}

impl Decimal {
    /// The number as a whole number and a count of decimal places: the
    /// literal stands for the first divided by ten to the power of the
    /// second. There is none if the digits do not fit in 64 bits.
    pub fn scaled(&self) -> (value: Option<(i64, usize)>)
        ensures
            value == scaled_value(self@),
    {
        let text = self.text.as_str();
        let len = text.unicode_len();
        let mut digits = String::new();
        let mut pointed = false;
        let mut places: usize = 0;
        for c in it: text.chars()
            invariant
                it.seq() == text@,
                len == text@.len(),
                digits@ == unpointed(text@.take(it.index() as int)),
                pointed == text@.take(it.index() as int).contains('.'),
                places == after_point(text@.take(it.index() as int)),
                places <= it.index() <= len,
        {
            let ghost seen = text@.take(it.index() as int);
            proof {
                seen.lemma_filter_push(c, |c: char| c != '.');
                assert(text@.take(it.index() + 1) =~= seen.push(c));
                assert(seen.push(c).drop_last() =~= seen);
            }
            if pointed {
                places += 1;
            }
            if c == '.' {
                pointed = true;
            } else {
                push_char(&mut digits, c);
            }
            proof {
                let next = seen.push(c);
                assert(next[next.len() - 1] == c);
                if seen.contains('.') {
                    let at = choose|at: int| 0 <= at < seen.len() && seen[at] == '.';
                    assert(next[at] == '.');
                }
                if next.contains('.') && c != '.' {
                    let at = choose|at: int| 0 <= at < next.len() && next[at] == '.';
                    assert(seen[at] == '.');
                }
            }
        }
        assert(text@.take(text@.len() as int) =~= text@);
        match parse_i64(digits.as_str()) {
            Some(whole) => Some((whole, places)),
            None => None,
        }
    }
}

impl Clone for Decimal {
    fn clone(&self) -> (copy: Self)
        ensures
            copy@ == self@,
    {
        proof {
            use_type_invariant(self);
        }
        Decimal { text: self.text.clone() }
    }
}

/// Whether `text` is a decimal literal.
fn check_decimal(text: &Vec<char>) -> (valid: bool)
    ensures
        valid == is_decimal(text@),
{
    let len = text.len();
    let start: usize = if len > 0 && (text[0] == '+' || text[0] == '-') {
        1
    } else {
        0
    };
    let ghost body = unsigned(text@);
    let mut digit_at: Option<usize> = None;
    let mut point_at: Option<usize> = None;
    let mut i: usize = start;
    while i < len
        invariant
            start <= i <= len,
            len == text@.len(),
            body == unsigned(text@),
            body == text@.skip(start as int),
            forall|k: int| 0 <= k < i - start ==> is_digit(#[trigger] body[k]) || body[k] == '.',
            match digit_at {
                Some(at) => at < i - start && is_digit(body[at as int]),
                None => forall|k: int| 0 <= k < i - start ==> !is_digit(#[trigger] body[k]),
            },
            match point_at {
                Some(at) => at < i - start && body[at as int] == '.' && forall|k: int|
                    0 <= k < i - start && k != at ==> #[trigger] body[k] != '.',
                None => forall|k: int| 0 <= k < i - start ==> #[trigger] body[k] != '.',
            },
        decreases len - i,
    {
        let c = text[i];
        if c == '.' {
            if point_at.is_some() {
                assert(!is_decimal(text@)) by {
                    let first = point_at.unwrap() as int;
                    let second = i - start;
                    assert(body[first] == '.' && body[second] == '.');
                }
                return false;
            }
            point_at = Some(i - start);
        } else if '0' <= c && c <= '9' {
            if digit_at.is_none() {
                digit_at = Some(i - start);
            }
        } else {
            assert(!is_decimal(text@)) by {
                assert(!(is_digit(body[i - start]) || body[i - start] == '.'));
            }
            return false;
        }
        i += 1;
    }
    digit_at.is_some()
}

/// Every character of a decimal literal is a digit, a sign or the point.
proof fn lemma_decimal_characters(text: Seq<char>, i: int)
    requires
        is_decimal(text),
        0 <= i < text.len(),
    ensures
        is_digit(text[i]) || text[i] == '-' || text[i] == '+' || text[i] == '.',
{
    let body = unsigned(text);
    if body.len() < text.len() && i > 0 {
        assert(body[i - 1] == text[i]);
    }
}

/// Reads the number in a tag value such as `-8.97 dB`: everything but
/// digits, signs and the point is dropped, and what is left must be a
/// decimal literal. A value that is a decimal literal is read as it stands.
pub fn parse_gain(gain: &str) -> (parsed: Result<Decimal, EleanorError>)
    ensures
        match parsed {
            Ok(number) => is_decimal(stripped(gain@)) && number@ == stripped(gain@),
            Err(error) => !is_decimal(stripped(gain@)) && error == EleanorError::ParseFloatError,
        },
        is_decimal(gain@) ==> stripped(gain@) == gain@,
{
    let mut kept: Vec<char> = Vec::new();
    let mut text = String::new();
    for c in it: gain.chars()
        invariant
            it.seq() == gain@,
            kept@ == gain@.take(it.index() as int).filter(|c: char| is_kept(c)),
            text@ == kept@,
            is_decimal(gain@) ==> kept@ == gain@.take(it.index() as int),
    {
        proof {
            let seen = gain@.take(it.index() as int);
            seen.lemma_filter_push(c, |c: char| is_kept(c));
            assert(gain@.take(it.index() + 1) =~= seen.push(c));
            if is_decimal(gain@) {
                lemma_decimal_characters(gain@, it.index() as int);
            }
        }
        if is_numeric(c) || c == '-' || c == '+' || c == '.' {
            kept.push(c);
            push_char(&mut text, c);
        }
    }
    assert(gain@.take(gain@.len() as int) =~= gain@);
    if check_decimal(&kept) {
        Ok(Decimal { text })
    } else {
        Err(EleanorError::ParseFloatError)
    }
}

/// A loudness figure: a gain in decibels, or a peak as a share of full scale.
#[derive(Debug)]
pub enum Level {
    /// As a tag states it.
    Tagged(Decimal),
    /// As the analysis measured it: the bits of a single-precision number.
    Measured(u32),
}

/// What a `Level` holds.
pub enum LevelView {
    Tagged(Seq<char>),
    Measured(u32),
}

impl View for Level {
    type V = LevelView;

    open spec fn view(&self) -> LevelView {
        match self {
            Level::Tagged(number) => LevelView::Tagged(number@),
            Level::Measured(bits) => LevelView::Measured(*bits),
        }
    }
}

impl Clone for Level {
    fn clone(&self) -> (copy: Self)
        ensures
            copy@ == self@,
    {
        match self {
            Level::Tagged(number) => Level::Tagged(number.clone()),
            Level::Measured(bits) => Level::Measured(*bits),
        }
    }
}

/// The view of a level that may be missing.
pub open spec fn level_view(level: Option<Level>) -> Option<LevelView> {
    match level {
        Some(level) => Some(level@),
        None => None,
    }
}

/// The loudness figures of one file. Those of the album only ever come from
/// tags.
#[derive(Debug)]
pub struct ReplayGainResult {
    pub track_gain: Level,
    pub track_peak: Level,
    pub album_gain: Option<Level>,
    pub album_peak: Option<Level>,
}

/// What a `ReplayGainResult` holds.
pub struct ReplayGainView {
    pub track_gain: LevelView,
    pub track_peak: LevelView,
    pub album_gain: Option<LevelView>,
    pub album_peak: Option<LevelView>,
}

impl View for ReplayGainResult {
    type V = ReplayGainView;

    open spec fn view(&self) -> ReplayGainView {
        ReplayGainView {
            track_gain: self.track_gain@,
            track_peak: self.track_peak@,
            album_gain: level_view(self.album_gain),
            album_peak: level_view(self.album_peak),
        }
    }
}

impl Clone for ReplayGainResult {
    fn clone(&self) -> (copy: Self)
        ensures
            copy@ == self@,
    {
        ReplayGainResult {
            track_gain: self.track_gain.clone(),
            track_peak: self.track_peak.clone(),
            album_gain: clone_level(&self.album_gain),
            album_peak: clone_level(&self.album_peak),
        }
    }
}

fn clone_level(level: &Option<Level>) -> (copy: Option<Level>)
    ensures
        level_view(copy) == level_view(*level),
{
    match level {
        Some(level) => Some(level.clone()),
        None => None,
    }
}

/// The level that a tag value stands for, if it holds a number.
pub open spec fn tag_level(value: Option<String>) -> Option<LevelView> {
    match value {
        Some(text) => if is_decimal(stripped(text@)) {
            Some(LevelView::Tagged(stripped(text@)))
        } else {
            None
        },
        None => None,
    }
}

/// The figures that tags alone give: those of the track must both be there,
/// those of the album are taken along where they are.
pub open spec fn tagged_result(tags: Option<Tag>) -> Option<ReplayGainView> {
    match tags {
        Some(tags) => match (tag_level(tags.track_gain), tag_level(tags.track_peak)) {
            (Some(track_gain), Some(track_peak)) => Some(
                ReplayGainView {
                    track_gain,
                    track_peak,
                    album_gain: tag_level(tags.album_gain),
                    album_peak: tag_level(tags.album_peak),
                },
            ),
            _ => None,
        },
        None => None,
    }
}

/// The tags of a file, if it has any, by value.
pub open spec fn owned(tags: Option<&Tag>) -> Option<Tag> {
    match tags {
        Some(tags) => Some(*tags),
        None => None,
    }
}

fn read_level(value: &Option<String>) -> (level: Option<Level>)
    ensures
        level_view(level) == tag_level(*value),
{
    match value {
        Some(text) => match parse_gain(text.as_str()) {
            Ok(number) => Some(Level::Tagged(number)),
            Err(_) => None,
        },
        None => None,
    }
}

/// The first of two levels that is there.
pub open spec fn or_else(first: Option<LevelView>, second: Option<LevelView>) -> Option<LevelView> {
    match first {
        Some(_) => first,
        None => second,
    }
}

/// Figures with the album's levels of the tags laid over them: where the
/// tags hold a number for the album's gain or peak, it stands.
pub open spec fn overlaid(figures: ReplayGainView, tags: Option<Tag>) -> ReplayGainView {
    match tags {
        Some(tags) => ReplayGainView {
            album_gain: or_else(tag_level(tags.album_gain), figures.album_gain),
            album_peak: or_else(tag_level(tags.album_peak), figures.album_peak),
            ..figures
        },
        None => figures,
    }
}

impl ReplayGainResult {
    /// Lays the album's levels of the tags over the figures. The figures of
    /// the track stay as they are, measured or not.
    pub fn overlay(self, tags: Option<&Tag>) -> (result: Self)
        ensures
            result@ == overlaid(self@, owned(tags)),
    {
        let Some(tags) = tags else {
            return self;
        };
        let album_gain = match read_level(&tags.album_gain) {
            Some(level) => Some(level),
            None => self.album_gain,
        };
        let album_peak = match read_level(&tags.album_peak) {
            Some(level) => Some(level),
            None => self.album_peak,
        };
        ReplayGainResult {
            track_gain: self.track_gain,
            track_peak: self.track_peak,
            album_gain,
            album_peak,
        }
    }

    /// The loudness figures that the tags of a file state. A file without
    /// tags, or whose tags lack a number for the track's gain or peak, has
    /// none.
    pub fn try_from(tags: Option<&Tag>) -> (found: Result<Self, EleanorError>)
        ensures
            match found {
                Ok(result) => tagged_result(owned(tags)) == Some(result@),
                Err(error) => tagged_result(owned(tags)) is None && error
                    == EleanorError::MietteError(Report::MissingGainTags),
            },
    {
        let Some(tags) = tags else {
            return Err(EleanorError::MietteError(Report::MissingGainTags));
        };
        let track_gain = read_level(&tags.track_gain);
        let track_peak = read_level(&tags.track_peak);
        let album_gain = read_level(&tags.album_gain);
        let album_peak = read_level(&tags.album_peak);
        match (track_gain, track_peak) {
            (Some(track_gain), Some(track_peak)) => Ok(
                ReplayGainResult { track_gain, track_peak, album_gain, album_peak },
            ),
            _ => Err(EleanorError::MietteError(Report::MissingGainTags)),
        }
    }
}

/// The sample rates that the loudness analysis has filters for.
pub open spec fn rate_supported(sample_rate: usize) -> bool {
    ||| sample_rate == 8000
    ||| sample_rate == 11025
    ||| sample_rate == 12000
    ||| sample_rate == 16000
    ||| sample_rate == 18900
    ||| sample_rate == 22050
    ||| sample_rate == 24000
    ||| sample_rate == 32000
    ||| sample_rate == 37800
    ||| sample_rate == 44100
    ||| sample_rate == 48000
    ||| sample_rate == 56000
    ||| sample_rate == 64000
    ||| sample_rate == 88200
    ||| sample_rate == 96000
    ||| sample_rate == 112000
    ||| sample_rate == 128000
    ||| sample_rate == 144000
    ||| sample_rate == 176400
    ||| sample_rate == 192000
}

/// `replaygain::ReplayGain::new`: it returns an analysis for the twenty
/// sample rates that the crate lists, and `None` for every other.
#[verifier::external_body]
fn analysis_exists(sample_rate: usize) -> (exists: bool)
    ensures
        exists == rate_supported(sample_rate),
{
    replaygain::ReplayGain::new(sample_rate).is_some()
}

/// Whether a track can be analysed at all: only stereo is.
pub open spec fn is_stereo(track: Track) -> bool {
    track.channels == Some(2u32)
}

/// What a `ReplayGain` holds: the track it analyses, at which rate, and how
/// many samples it has taken in.
pub struct Ledger {
    pub track_id: u32,
    pub sample_rate: usize,
    pub samples: nat,
}

/// The ledger of one track's loudness analysis: which packets belong to it
/// and how many samples they gave. The samples themselves stay with whoever
/// decodes them.
pub struct ReplayGain {
    track_id: u32,
    sample_rate: usize,
    empty: bool,
    samples: Ghost<nat>,
}

impl View for ReplayGain {
    type V = Ledger;

    closed spec fn view(&self) -> Ledger {
        Ledger { track_id: self.track_id, sample_rate: self.sample_rate, samples: self.samples@ }
    }
}

impl ReplayGain {
    #[verifier::type_invariant]
    spec fn well_formed(self) -> bool {
        &&& self.empty <==> self.samples@ == 0
        &&& rate_supported(self.sample_rate)
    }

    /// Sets up the analysis of `track` at `sample_rate`. `decoder` is what
    /// making a decoder for the track gave. The track must be stereo, the
    /// analysis must know the sample rate, and the decoder must exist; the
    /// first of these that fails is reported.
    pub fn init(sample_rate: usize, track: &Track, decoder: Result<(), StreamError>) -> (made: Result<
        Self,
        EleanorError,
    >)
        ensures
            match init_failure(sample_rate, *track, decoder) {
                Some(error) => made == Err::<Self, EleanorError>(error),
                None => match made {
                    Ok(analysis) => analysis@ == (Ledger {
                        track_id: track.id,
                        sample_rate,
                        samples: 0,
                    }),
                    Err(_) => false,
                },
            },
    {
        if track.channels != Some(2u32) {
            return Err(EleanorError::MietteError(Report::UnsupportedChannels(track.channels)));
        }
        if !analysis_exists(sample_rate) {
            return Err(EleanorError::MietteError(Report::UnsupportedSampleRate(sample_rate)));
        }
        match decoder {
            Ok(()) => Ok(
                ReplayGain { track_id: track.id, sample_rate, empty: true, samples: Ghost(0) },
            ),
            Err(error) => Err(EleanorError::SymponiaError(error)),
        }
    }

    /// Whether `packet` belongs to the analysed track and is to be decoded.
    pub fn wants(&self, packet: &Packet) -> (wanted: bool)
        ensures
            wanted == (packet.track_id == self@.track_id),
    {
        packet.track_id == self.track_id
    }

    /// Whether no sample has been taken in yet.
    pub fn is_empty(&self) -> (empty: bool)
        ensures
            empty == (self@.samples == 0),
    {
        proof {
            use_type_invariant(self);
        }
        self.empty
    }

    /// Takes in what decoding `packet` gave: the number of samples, or why
    /// there are none. A packet of another track changes nothing, whatever
    /// `decoded` says. A malformed packet is passed over. Any other failure
    /// is handed on, and the analysis should then be given up.
    pub fn handle_packet(&mut self, packet: &Packet, decoded: Result<usize, StreamError>) -> (taken:
        Result<(), EleanorError>)
        ensures
            final(self)@ == ledger_after(old(self)@, packet.track_id, decoded),
            taken == packet_outcome(old(self)@.track_id, packet.track_id, decoded),
    {
        proof {
            use_type_invariant(&*self);
        }
        if packet.track_id != self.track_id {
            return Ok(());
        }
        match decoded {
            Ok(count) => {
                *self = ReplayGain {
                    track_id: self.track_id,
                    sample_rate: self.sample_rate,
                    empty: self.empty && count == 0,
                    samples: Ghost(self.samples@ + count as nat),
                };
                Ok(())
            },
            Err(StreamError::Decode) => Ok(()),
            Err(error) => Err(EleanorError::SymponiaError(error)),
        }
    }

    /// Ends the analysis. `measured` is the gain and the peak that the
    /// analysis of the samples gave; it counts only if there were samples.
    pub fn finish(self, measured: (u32, u32)) -> (result: Result<ReplayGainResult, EleanorError>)
        ensures
            view_of(result) == ledger_result(self@, measured),
    {
        proof {
            use_type_invariant(&self);
        }
        if self.empty {
            return Err(EleanorError::MietteError(Report::NoSamples));
        }
        Ok(
            ReplayGainResult {
                track_gain: Level::Measured(measured.0),
                track_peak: Level::Measured(measured.1),
                album_gain: None,
                album_peak: None,
            },
        )
    }
}

/// The view of loudness figures that may have failed.
pub open spec fn view_of(result: Result<ReplayGainResult, EleanorError>) -> Result<
    ReplayGainView,
    EleanorError,
> {
    match result {
        Ok(figures) => Ok(figures@),
        Err(error) => Err(error),
    }
}

/// Why an analysis cannot be set up, if it cannot: the track is not stereo,
/// the analysis does not know the sample rate, or there is no decoder.
pub open spec fn init_failure(
    sample_rate: usize,
    track: Track,
    decoder: Result<(), StreamError>,
) -> Option<EleanorError> {
    if !is_stereo(track) {
        Some(EleanorError::MietteError(Report::UnsupportedChannels(track.channels)))
    } else if !rate_supported(sample_rate) {
        Some(EleanorError::MietteError(Report::UnsupportedSampleRate(sample_rate)))
    } else {
        match decoder {
            Err(error) => Some(EleanorError::SymponiaError(error)),
            Ok(_) => None,
        }
    }
}

/// The ledger after a packet of track `packet_track` that decoded as
/// `decoded`: only samples of the analysed track are counted.
pub open spec fn ledger_after(
    ledger: Ledger,
    packet_track: u32,
    decoded: Result<usize, StreamError>,
) -> Ledger {
    if packet_track != ledger.track_id {
        ledger
    } else {
        match decoded {
            Ok(count) => Ledger { samples: ledger.samples + count as nat, ..ledger },
            Err(_) => ledger,
        }
    }
}

/// What taking in a packet answers: only a failure to decode a packet of
/// the analysed track, other than a malformed packet, is an error.
pub open spec fn packet_outcome(
    track_id: u32,
    packet_track: u32,
    decoded: Result<usize, StreamError>,
) -> Result<(), EleanorError> {
    if packet_track != track_id {
        Ok(())
    } else {
        match decoded {
            Ok(_) => Ok(()),
            Err(StreamError::Decode) => Ok(()),
            Err(error) => Err(EleanorError::SymponiaError(error)),
        }
    }
}

/// What an analysis ends with: the measurement, unless there was no sample.
pub open spec fn ledger_result(ledger: Ledger, measured: (u32, u32)) -> Result<
    ReplayGainView,
    EleanorError,
> {
    if ledger.samples == 0 {
        Err(EleanorError::MietteError(Report::NoSamples))
    } else {
        Ok(
            ReplayGainView {
                track_gain: LevelView::Measured(measured.0),
                track_peak: LevelView::Measured(measured.1),
                album_gain: None,
                album_peak: None,
            },
        )
    }
}

} // verus!
