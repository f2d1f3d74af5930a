//! MOD (ProTracker) output writer.
use vstd::prelude::*;
use vstd::string::*;

pub mod encoder;
pub mod period;

use crate::error::{ConversionError, Error};
use crate::model::{InstrumentData, LoopMode, PatternData, SampleData, SampleFreqMode, SongData};
use crate::mod_format::encoder::{loop_value_of, tone_portamento_triggered, ModEncoder, ModEncoderModel, ModInstrumentInfo};
use crate::common::{compute_ticks_per_row_for_line, row_cells_exist, ticks_per_row_for_line};
use crate::model::{MasterTrackLineData, TrackLineData};
use crate::text::{parse_hex_i32, parse_hex_i32_spec};
use crate::mod_format::period::{
    note_name_period_index, lemma_period_bounds, ProTrackerCompatibility, NOTE_VALUE_A3, NOTE_VALUE_B3,
    NOTE_VALUE_C2, NOTE_VALUE_C3, PERIODS_RANGE,
};
use crate::numeric::{round_div, min};
use crate::text::note_slice_splits_char;
use vstd::utf8::encode_utf8;

pub use crate::mod_format::encoder::ModSettings;

verus! {

pub const MIN_CHANNELS: usize = 4;
pub const MAX_INSTRUMENTS: usize = 31;
pub const MAX_SAMPLE_LENGTH_MOD: usize = 65536;
pub const NUM_ROWS_PER_PATTERN: usize = 64;
pub const PATTERN_SEQUENCE_SIZE: usize = 128;
pub const SAMPLE_INFO_BLOCK_SIZE: usize = 930;
pub const SAMPLE_HEADER_SIZE: usize = 30;
/// Master-track columns read per row.
pub const MAX_MASTER_TRACK_COLUMNS_TO_PARSE: usize = 1;

/// The sample rate that plays period `period` at the note it stands for: the Amiga clock
/// (7093789.2 Hz PAL, 7159090 Hz NTSC) over twice the period, rounded. This integer form equals
/// the floating-point `round(clock / (2 * period))` for every period of the table.
pub open spec fn rate_for_period(period: int, ntsc_mode: bool) -> int {
    if ntsc_mode { round_div(7159090, 2 * period) } else { round_div(70937892, 20 * period) }
}

/// The rate a sample is resampled to for `mode`: the rate of the C-2 / C-3 / highest allowed
/// note, the original rate, the rate of an explicit note name, or an explicit rate. A rate of 0
/// (from `Original` or `Hz`) falls back to the C-2 rate.
pub open spec fn sample_rate_for_mode(mode: SampleFreqMode, original_rate: int, ntsc_mode: bool, pt_compat: ProTrackerCompatibility) -> Option<int> {
    let c2 = rate_for_period(PERIODS_RANGE@[NOTE_VALUE_C2 as int] as int, ntsc_mode);
    match mode {
        SampleFreqMode::Low => Some(rate_for_period(PERIODS_RANGE@[NOTE_VALUE_C2 as int] as int, ntsc_mode)),
        SampleFreqMode::High => Some(rate_for_period(PERIODS_RANGE@[NOTE_VALUE_C3 as int] as int, ntsc_mode)),
        SampleFreqMode::Maximum => Some(rate_for_period(
            PERIODS_RANGE@[if pt_compat == ProTrackerCompatibility::A3Max { NOTE_VALUE_A3 as int } else { NOTE_VALUE_B3 as int }] as int,
            ntsc_mode,
        )),
        SampleFreqMode::Original => Some(if original_rate > 0 { original_rate } else { c2 }),
        SampleFreqMode::NoteName(name) => match note_name_period_index(name@) {
            Some(i) => Some(rate_for_period(PERIODS_RANGE@[i as int] as int, ntsc_mode)),
            None => None,
        },
        SampleFreqMode::Hz(hz) => Some(if hz > 0 { hz as int } else { c2 }),
    }
}

fn rate_for_period_exec(period: i32, ntsc_mode: bool) -> (r: u32)
    requires
        28 <= period <= 1712,
    ensures
        r == rate_for_period(period as int, ntsc_mode),
{
    let rate = if ntsc_mode {
        crate::numeric::round_div_sat(7159090, 2 * period as i64)
    } else {
        crate::numeric::round_div_sat(70937892, 20 * period as i64)
    };
    assert(0 <= rate_for_period(period as int, ntsc_mode) <= 2_000_000) by {
        let p = period as int;
        assert((2 * 7159090 + 2 * p) / (4 * p) <= 2_000_000) by (nonlinear_arith)
            requires 28 <= p <= 1712;
        assert((2 * 70937892 + 20 * p) / (40 * p) <= 2_000_000) by (nonlinear_arith)
            requires 28 <= p <= 1712;
        assert((2 * 7159090 + 2 * p) / (4 * p) >= 0) by (nonlinear_arith)
            requires 28 <= p <= 1712;
        assert((2 * 70937892 + 20 * p) / (40 * p) >= 0) by (nonlinear_arith)
            requires 28 <= p <= 1712;
    }
    rate as u32
}

/// Resolves a [`SampleFreqMode`] and the sample's decoded rate into the rate to resample to.
/// Refused only for a note name that is not in the period table.
pub fn resolve_sample_rate(
    mode: &SampleFreqMode,
    original_rate: u32,
    ntsc_mode: bool,
    pt_compat: ProTrackerCompatibility,
) -> (r: Result<u32, Error>)
    requires
        mode matches SampleFreqMode::NoteName(name) ==> !note_slice_splits_char(name@),
    ensures
        r is Ok <==> sample_rate_for_mode(*mode, original_rate as int, ntsc_mode, pt_compat) is Some,
        r matches Ok(rate) ==> sample_rate_for_mode(*mode, original_rate as int, ntsc_mode, pt_compat) == Some(rate as int),
        r matches Err(e) ==> (mode matches SampleFreqMode::NoteName(name)
            && e matches Error::Conversion(ConversionError::NoteNameOutOfRange(n)) && n@ == name@),
{
    let note_index_max = if pt_compat == ProTrackerCompatibility::A3Max { NOTE_VALUE_A3 } else { NOTE_VALUE_B3 };
    let mut freq_from_setting: i64 = 0;
    let mut note_index: i32 = 0;
    let mut note_period: i32 = 0;
    match mode {
        SampleFreqMode::Low => note_index = NOTE_VALUE_C2,
        SampleFreqMode::High => note_index = NOTE_VALUE_C3,
        SampleFreqMode::Maximum => note_index = note_index_max,
        SampleFreqMode::Original => freq_from_setting = original_rate as i64,
        SampleFreqMode::NoteName(name) => {
            note_period = ModEncoder::mod_note_period_from_name(name.as_str())?;
            proof {
                lemma_period_bounds(note_name_period_index(name@).unwrap() as int);
            }
        },
        SampleFreqMode::Hz(hz) => freq_from_setting = *hz as i64,
    }
    proof {
        lemma_period_bounds(NOTE_VALUE_C2 as int);
        lemma_period_bounds(NOTE_VALUE_C3 as int);
        lemma_period_bounds(NOTE_VALUE_A3 as int);
        lemma_period_bounds(NOTE_VALUE_B3 as int);
    }
    let sample_rate = if freq_from_setting > 0 {
        freq_from_setting as u32
    } else if note_index > 0 {
        rate_for_period_exec(PERIODS_RANGE[note_index as usize], ntsc_mode)
    } else if note_period > 0 {
        rate_for_period_exec(note_period, ntsc_mode)
    } else {
        rate_for_period_exec(PERIODS_RANGE[NOTE_VALUE_C2 as usize], ntsc_mode)
    };
    Ok(sample_rate)
}


/// The first `len` bytes of `bytes`, padded with zeros.
pub open spec fn name_bytes(bytes: Seq<u8>, len: nat) -> Seq<u8> {
    Seq::new(len, |i: int| if i < bytes.len() { bytes[i] } else { 0u8 })
}

/// Truncates or zero-pads the UTF-8 bytes of `s` to exactly `len` bytes.
pub fn write_name_bytes(s: &str, len: usize) -> (r: Vec<u8>)
    ensures
        r@ == name_bytes(s.spec_bytes(), len as nat),
{
    let bytes = s.as_bytes();
    let mut out: Vec<u8> = Vec::new();
    let mut i: usize = 0;
    while i < len
        invariant
            i <= len,
            bytes@ == s.spec_bytes(),
            out@ =~= name_bytes(s.spec_bytes(), len as nat).take(i as int),
        decreases len - i,
    {
        let b = if i < bytes.len() { bytes[i] } else { 0 };
        out.push(b);
        i += 1;
    }
    out
}

/// Truncates or zero-pads `bytes` to exactly `len` bytes.
pub fn write_name_bytes_of(bytes: &[u8], len: usize) -> (r: Vec<u8>)
    ensures
        r@ == name_bytes(bytes@, len as nat),
{
    let mut out: Vec<u8> = Vec::new();
    let mut i: usize = 0;
    while i < len
        invariant
            i <= len,
            out@ =~= name_bytes(bytes@, len as nat).take(i as int),
        decreases len - i,
    {
        let b = if i < bytes.len() { bytes[i] } else { 0 };
        out.push(b);
        i += 1;
    }
    out
}

/// ASCII decimal digits of `n`, most significant first.
pub open spec fn decimal_bytes(n: nat) -> Seq<u8>
    decreases n,
{
    if n < 10 { seq![(48 + n) as u8] } else { decimal_bytes(n / 10).push((48 + n % 10) as u8) }
}

pub(crate) fn decimal_bytes_exec(n: usize) -> (r: Vec<u8>)
    ensures
        r@ == decimal_bytes(n as nat),
    decreases n,
{
    if n < 10 {
        let mut v: Vec<u8> = Vec::new();
        v.push((48 + n) as u8);
        v
    } else {
        let mut v = decimal_bytes_exec(n / 10);
        v.push((48 + n % 10) as u8);
        v
    }
}

/// The format tag naming the channel count: `"M.K."` for four channels, else
/// `"<channels>CHN"` (written truncated to four bytes, which gives the two-digit `"16CH"` form).
pub open spec fn channels_tag_bytes(num_channels: nat) -> Seq<u8> {
    if num_channels == 4 {
        seq![77u8, 46u8, 75u8, 46u8]
    } else {
        decimal_bytes(num_channels) + seq![67u8, 72u8, 78u8]
    }
}

/// The bytes of the channel-count tag, before truncation to four bytes.
pub fn channels_tag(num_channels: usize) -> (r: Vec<u8>)
    ensures
        r@ == channels_tag_bytes(num_channels as nat),
{
    if num_channels == 4 {
        let mut v: Vec<u8> = Vec::new();
        v.push(77);
        v.push(46);
        v.push(75);
        v.push(46);
        assert(v@ =~= seq![77u8, 46u8, 75u8, 46u8]);
        v
    } else {
        let mut v = decimal_bytes_exec(num_channels);
        let ghost digits = v@;
        v.push(67);
        v.push(72);
        v.push(78);
        assert(v@ =~= digits + seq![67u8, 72u8, 78u8]);
        v
    }
}

/// Song length byte and the restart byte, which is always `0x7F`.
pub fn get_song_length_data(num_patterns: usize) -> (r: [u8; 2])
    ensures
        r@ == seq![num_patterns as u8, 0x7Fu8],
{
    let r = [num_patterns as u8, 0x7F];
    assert(r@ =~= seq![num_patterns as u8, 0x7Fu8]);
    r
}

/// The 128-byte pattern sequence: the order table's first 128 entries, zero-padded.
pub fn get_pattern_sequence_data(pattern_order_table: &[u8]) -> (r: [u8; 128])
    ensures
        r@ =~= name_bytes(pattern_order_table@, 128),
{
    let mut data = [0u8; 128];
    let n = if pattern_order_table.len() < PATTERN_SEQUENCE_SIZE { pattern_order_table.len() } else { PATTERN_SEQUENCE_SIZE };
    let mut i: usize = 0;
    while i < n
        invariant
            i <= n,
            n == min(pattern_order_table@.len() as int, 128),
            forall|k: int| 0 <= k < i ==> data@[k] == pattern_order_table@[k],
            forall|k: int| i <= k < 128 ==> data@[k] == 0,
            data@.len() == 128,
        decreases n - i,
    {
        data[i] = pattern_order_table[i];
        i += 1;
    }
    data
}

/// Writes `value` big-endian at `offset`.
pub fn write_u16_be(buf: &mut [u8], offset: usize, value: u16)
    requires
        offset + 1 < old(buf)@.len(),
    ensures
        final(buf)@ == old(buf)@.update(offset as int, (value / 256) as u8).update(offset + 1, (value % 256) as u8),
{
    let hi = (value >> 8) as u8;
    let lo = (value & 0xFF) as u8;
    assert(hi == (value / 256) as u8) by (bit_vector) requires hi == (value >> 8) as u8;
    assert(lo == (value % 256) as u8) by (bit_vector) requires lo == (value & 0xFF) as u8;
    buf[offset] = hi;
    buf[offset + 1] = lo;
}

/// `None` for an empty string.
pub fn non_empty(s: &str) -> (r: Option<&str>)
    ensures
        s@.len() == 0 ==> r is None,
        s@.len() != 0 ==> r == Some(s),
{
    if s.is_empty() { None } else { Some(s) }
}

/// MOD files have at least four channels.
pub fn check_requirements(song: &SongData) -> (r: Result<(), Error>)
    ensures
        r is Ok <==> song.num_channels >= MIN_CHANNELS,
        r is Err ==> r == Err::<(), Error>(Error::Conversion(ConversionError::TooFewChannels)),
{
    if song.num_channels < MIN_CHANNELS {
        return Err(Error::Conversion(ConversionError::TooFewChannels));
    }
    Ok(())
}


#[derive(Debug, Clone, Copy, PartialEq, Eq, Structural)]
pub enum LogLevel {
    Info,
    Warning,
    Error,
}

/// What a conversion reports while it runs.
#[derive(Debug, Clone)]
pub enum LogMessage {
    /// The pattern order table has more entries than the format keeps.
    PatternOrderTableTruncated { entries: usize, max: usize },
    /// The song has more instruments than the format keeps.
    InstrumentsTruncated { count: usize, max: usize },
    /// Starting sample `number` (1-based) of `total`.
    ProcessingSample { number: usize, total: usize, name: String },
    /// Instrument `instrument` (1-based) has more than the one sample MOD keeps.
    MultipleSamples { instrument: usize },
    /// Encoding a sample failed; the sample is written empty.
    SampleFailed(Error),
    /// Starting pattern `index` of `max`.
    ProcessingPattern { index: usize, max: usize },
    /// A pattern has more rows than the format keeps.
    PatternRowsTruncated { rows: usize, max: usize },
    /// A master-track command found no free effect slot on its row.
    UnusedMasterTrackCommand { row: usize, channel: usize },
    /// A note could not be converted.
    NoteFailed { row: usize, instrument: i32, channel: usize, error: Error },
    /// An effect could not be converted.
    EffectFailed { row: usize, channel: usize, error: Error },
    /// Starting the XM header.
    ProcessingXmHeader,
    /// Starting sample `sample` of `samples` of instrument `instrument` of `instruments`.
    ProcessingInstrumentSample { instrument: usize, instruments: usize, sample: usize, samples: usize },
    /// A delay found no free effect slot.
    DelayWithoutSlot { row: usize, channel: usize },
    /// A scaled volume found no free slot.
    ScaledVolumeWithoutSlot { row: usize, channel: usize },
    /// A cell field could not be converted.
    CellFailed { row: usize, channel: usize, error: Error },
}

/// Where a conversion sends its progress and problems.
pub trait ConversionLog {
    fn log(&mut self, level: LogLevel, message: LogMessage);
}

/// A log that drops everything.
pub struct NullLog;

impl ConversionLog for NullLog {
    fn log(&mut self, level: LogLevel, message: LogMessage) {
    }
}

/// Encoded (mono, 8-bit, sign-flipped) sample data with what the header fields need.
pub struct EncodedSample {
    pub encoded_pcm: Vec<u8>,
    /// The rate actually resampled to (see [`resolve_sample_rate`]).
    pub sample_rate: u32,
    /// `round(1536 * log2(sample_rate / c2_frequency))` for the configured PAL/NTSC clock.
    pub pitch_units: i32,
    /// Decoded (pre-resample) source length, in bytes at the source bit depth/channel count.
    pub original_length_bytes: i64,
    pub original_channels: u32,
    pub original_bits_per_sample: u32,
}

/// Supplies the encoded PCM of one instrument's first sample.
pub trait ModSampleSource {
    /// Whether `r` is an answer this source gives for the first sample `sample` of 0-based
    /// instrument `instrument_index` under `settings` (by default, any answer).
    open spec fn encodes(&self, instrument_index: usize, sample: SampleData, settings: ModSettings, r: Result<Option<EncodedSample>, Error>) -> bool {
        true
    }

    /// `Ok(None)` means the instrument has no usable sample (silence, not an error).
    fn encode_sample(&self, instrument_index: usize, sample: &SampleData, settings: &ModSettings) -> (r: Result<Option<EncodedSample>, Error>)
        ensures
            self.encodes(instrument_index, *sample, *settings, r);
}

/// Whether the sample pass keeps data from the answer `answer`: encoded data with channels that
/// is not empty and fits a MOD sample.
pub open spec fn answer_keeps_data(answer: Result<Option<EncodedSample>, Error>) -> bool {
    answer matches Ok(Some(s)) && s.original_channels != 0 && 0 < s.encoded_pcm@.len() <= MAX_SAMPLE_LENGTH_MOD
}

/// The loop points of the first sample of every instrument a MOD file keeps (the first 31) lie
/// in order when it loops and `source` can answer with data the sample pass keeps.
pub open spec fn loops_ordered<S: ModSampleSource>(source: S, settings: ModSettings, instruments: Seq<InstrumentData>) -> bool {
    forall|i: usize, answer: Result<Option<EncodedSample>, Error>|
        #![trigger source.encodes(i, instruments[i as int].samples@[0], settings, answer)]
        i < instruments.len() && i < 31 && instruments[i as int].samples@.len() > 0
        && instruments[i as int].samples@[0].loop_mode != LoopMode::Off
        && source.encodes(i, instruments[i as int].samples@[0], settings, answer) && answer_keeps_data(answer)
        ==> instruments[i as int].samples@[0].loop_start <= instruments[i as int].samples@[0].loop_end
}

/// Every instrument's relative tone and finetune lie within +-1000, as the base-note split
/// leaves them.
pub open spec fn instrument_infos_bounded(infos: Seq<ModInstrumentInfo>) -> bool {
    forall|i: int| 0 <= i < infos.len() ==> -1000 <= #[trigger] infos[i].related_note <= 1000 && -1000 <= infos[i].fine_tune <= 1000
}

/// The properties the encoder stores for the first sample of an instrument encoded as `s`:
/// the base-note split of its pitch, its encoded length, and its source length in frames.
pub open spec fn stored_sample_info(s: EncodedSample, sample: SampleData) -> ModInstrumentInfo {
    let props = crate::common::sample_properties_spec(s.pitch_units as int, sample.rel_note_number as int,
        sample.transpose as int, sample.fine_tune as int);
    ModInstrumentInfo {
        related_note: props.relative_tone,
        fine_tune: props.fine_tune,
        length: ((s.encoded_pcm@.len() as i64) as u64) as i32,
        original_length: ((if s.original_bits_per_sample > 8 { (s.original_length_bytes as u64) / 2 }
            else { s.original_length_bytes as u64 }) / (s.original_channels as u64)) as i32,
    }
}

/// What the sample pass makes of the source's answer `encoded` for the first sample of
/// 0-based instrument `index`, taking encoder state `before` to `after` and giving `r`: encoded
/// data has its properties stored and is kept when it fits a MOD sample, else refused; data
/// reported with no channels is refused; a failure is passed on; no data is an empty sample.
pub open spec fn sample_recorded(
    before: ModEncoderModel,
    after: ModEncoderModel,
    index: int,
    sample: SampleData,
    encoded: Result<Option<EncodedSample>, Error>,
    r: Result<Vec<u8>, Error>,
) -> bool {
    match encoded {
        Err(e) => r == Err::<Vec<u8>, Error>(e) && after == before,
        Ok(None) => (r matches Ok(v) && v@.len() == 0) && after == before,
        Ok(Some(s)) => if s.original_channels == 0 {
            &&& r == Err::<Vec<u8>, Error>(Error::Conversion(ConversionError::SampleWithoutChannels { instrument: (index + 1) as usize, sample: 1 }))
            &&& after == before
        } else {
            &&& after == (ModEncoderModel { instruments: before.instruments.update(index, stored_sample_info(s, sample)), ..before })
            &&& s.encoded_pcm@.len() > MAX_SAMPLE_LENGTH_MOD ==> r == Err::<Vec<u8>, Error>(Error::Conversion(
                ConversionError::SampleTooLarge {
                    sample_number: (index + 1) as usize,
                    max_length: MAX_SAMPLE_LENGTH_MOD,
                    length: s.encoded_pcm@.len() as usize,
                }))
            &&& s.encoded_pcm@.len() <= MAX_SAMPLE_LENGTH_MOD ==> (r matches Ok(v) && v@ == s.encoded_pcm@)
        },
    }
}

/// Takes the sample source's answer for the first sample of 0-based instrument
/// `instrument_index` into the sample pass (see [`sample_recorded`]).
pub fn record_encoded_sample(
    instrument_index: usize,
    sample: &SampleData,
    encoded: Result<Option<EncodedSample>, Error>,
    encoder: &mut ModEncoder,
) -> (r: Result<Vec<u8>, Error>)
    requires
        instrument_index < old(encoder)@.instruments.len(),
    ensures
        sample_recorded(old(encoder)@, final(encoder)@, instrument_index as int, *sample, encoded, r),
        final(encoder)@.channels == old(encoder)@.channels,
        final(encoder)@.settings == old(encoder)@.settings,
        final(encoder)@.ticks_per_row == old(encoder)@.ticks_per_row,
        final(encoder)@.playback_engine_version == old(encoder)@.playback_engine_version,
        final(encoder)@.pitch_compatibility_mode == old(encoder)@.pitch_compatibility_mode,
        final(encoder)@.sample_offset_compatibility_mode == old(encoder)@.sample_offset_compatibility_mode,
        final(encoder)@.instruments.len() == old(encoder)@.instruments.len(),
        forall|i: int| 0 <= i < old(encoder)@.instruments.len() && i != instrument_index
            ==> #[trigger] final(encoder)@.instruments[i] == old(encoder)@.instruments[i],
        r matches Ok(pcm) ==> pcm@.len() <= MAX_SAMPLE_LENGTH_MOD,
        instrument_infos_bounded(old(encoder)@.instruments) ==> instrument_infos_bounded(final(encoder)@.instruments),
{
    // The instrument count is a `usize`, so `instrument_index + 1` cannot overflow.
    let _num_instruments = encoder.num_instruments();
    let encoded = match encoded {
        Err(e) => return Err(e),
        Ok(None) => return Ok(Vec::new()),
        Ok(Some(e)) => e,
    };
    if encoded.original_channels == 0 {
        return Err(Error::Conversion(ConversionError::SampleWithoutChannels { instrument: instrument_index + 1, sample: 1 }));
    }
    encoder.store_sample_info(
        instrument_index,
        encoded.original_length_bytes,
        encoded.encoded_pcm.len() as i64,
        encoded.pitch_units,
        encoded.original_channels,
        encoded.original_bits_per_sample,
        sample.rel_note_number as i32,
        sample.fine_tune as i32,
        sample.transpose as i32,
    );
    proof {
        let props = crate::common::sample_properties_spec(encoded.pitch_units as int, sample.rel_note_number as int,
            sample.transpose as int, sample.fine_tune as int);
        assert(-1000 <= props.relative_tone <= 1000 && -1000 <= props.fine_tune <= 1000);
        if instrument_infos_bounded(old(encoder)@.instruments) {
            assert forall|i: int| 0 <= i < encoder@.instruments.len() implies
                -1000 <= #[trigger] encoder@.instruments[i].related_note <= 1000 && -1000 <= encoder@.instruments[i].fine_tune <= 1000 by {
                if i != instrument_index {
                    assert(encoder@.instruments[i] == old(encoder)@.instruments[i]);
                }
            }
        }
    }
    if encoded.encoded_pcm.len() > MAX_SAMPLE_LENGTH_MOD {
        return Err(Error::Conversion(ConversionError::SampleTooLarge {
            sample_number: instrument_index + 1,
            max_length: MAX_SAMPLE_LENGTH_MOD,
            length: encoded.encoded_pcm.len(),
        }));
    }
    Ok(encoded.encoded_pcm)
}

/// Asks the sample source for the first sample of 0-based instrument `instrument_index` and
/// takes its answer into the sample pass: whatever the source answers for that instrument,
/// sample and settings, the result and the encoder are those [`sample_recorded`] gives for that
/// answer.
pub fn process_one_sample<S: ModSampleSource>(
    instrument_index: usize,
    sample: &SampleData,
    settings: &ModSettings,
    samples: &S,
    encoder: &mut ModEncoder,
) -> (r: Result<Vec<u8>, Error>)
    requires
        instrument_index < old(encoder)@.instruments.len(),
    ensures
        exists|encoded: Result<Option<EncodedSample>, Error>|
            #[trigger] sample_recorded(old(encoder)@, final(encoder)@, instrument_index as int, *sample, encoded, r)
            && samples.encodes(instrument_index, *sample, *settings, encoded),
        final(encoder)@.channels == old(encoder)@.channels,
        final(encoder)@.settings == old(encoder)@.settings,
        final(encoder)@.ticks_per_row == old(encoder)@.ticks_per_row,
        final(encoder)@.playback_engine_version == old(encoder)@.playback_engine_version,
        final(encoder)@.pitch_compatibility_mode == old(encoder)@.pitch_compatibility_mode,
        final(encoder)@.sample_offset_compatibility_mode == old(encoder)@.sample_offset_compatibility_mode,
        final(encoder)@.instruments.len() == old(encoder)@.instruments.len(),
        forall|i: int| 0 <= i < old(encoder)@.instruments.len() && i != instrument_index
            ==> #[trigger] final(encoder)@.instruments[i] == old(encoder)@.instruments[i],
        r matches Ok(pcm) ==> pcm@.len() <= MAX_SAMPLE_LENGTH_MOD,
        instrument_infos_bounded(old(encoder)@.instruments) ==> instrument_infos_bounded(final(encoder)@.instruments),
{
    let encoded = samples.encode_sample(instrument_index, sample, settings);
    record_encoded_sample(instrument_index, sample, encoded, encoder)
}

/// The header nibble of a MOD finetune value (bits 4-7 of the 1/128-semitone finetune).
pub open spec fn fine_tune_nibble(fine_tune: int) -> u8 {
    ((fine_tune / 16) % 16) as u8
}

/// A sample-header slot left blank: all zero but the loop-length low byte, which is 1 so that
/// ProTracker does not crash on it.
pub open spec fn blank_slot(info: Seq<u8>, slot: int) -> bool {
    &&& forall|k: int| 0 <= k < 29 ==> #[trigger] info[30 * slot + k] == 0
    &&& info[30 * slot + 29] == 1
}

/// The header slot of an instrument with a sample: its name, finetune nibble and default
/// volume (the length and loop fields depend on the encoded sample).
pub open spec fn filled_slot(info: Seq<u8>, slot: int, instrument: InstrumentData, fine_tune: int) -> bool {
    &&& forall|k: int| 0 <= k < 22 ==> #[trigger] info[30 * slot + k] == name_bytes(encode_utf8(instrument.name@), 22)[k]
    &&& info[30 * slot + 24] == fine_tune_nibble(fine_tune)
    &&& info[30 * slot + 25] == instrument.samples@[0].default_volume
}

/// The length and loop fields of the header slot of an instrument whose first sample `sample`
/// came to `data_len` bytes of data with stored properties `stored`: the length in words, then
/// the loop start and length in words rescaled to the data, or no loop (words 0 and 1) when the
/// data is empty or the sample does not loop.
pub open spec fn slot_sizes(info: Seq<u8>, slot: int, sample: SampleData, stored: ModInstrumentInfo, data_len: int) -> bool {
    let words = (data_len / 2) as u16;
    &&& info[30 * slot + 22] == (words / 256) as u8
    &&& info[30 * slot + 23] == (words % 256) as u8
    &&& if data_len > 0 && sample.loop_mode != LoopMode::Off {
        let start = loop_value_of(stored, sample.loop_start as int) as u16;
        let length = loop_value_of(stored, sample.loop_end - sample.loop_start) as u16;
        &&& info[30 * slot + 26] == (start / 256) as u8
        &&& info[30 * slot + 27] == (start % 256) as u8
        &&& info[30 * slot + 28] == (length / 256) as u8
        &&& info[30 * slot + 29] == (length % 256) as u8
    } else {
        &&& info[30 * slot + 26] == 0
        &&& info[30 * slot + 27] == 0
        &&& info[30 * slot + 28] == 0
        &&& info[30 * slot + 29] == 1
    }
}

/// The loop fields of a filled sample-header slot: the loop start word is the loop start
/// rescaled to the data, and the loop start word plus the loop length word is the loop end
/// rescaled to the data (one word short at most, from rounding each down), so the loop ends
/// where the sample's loop ends.
pub proof fn law_mod_loop_words(info: Seq<u8>, slot: int, sample: SampleData, stored: ModInstrumentInfo, data_len: int)
    requires
        slot_sizes(info, slot, sample, stored, data_len),
        data_len > 0,
        sample.loop_mode != LoopMode::Off,
        sample.loop_start <= sample.loop_end,
        stored.length > 0,
        loop_value_of(stored, sample.loop_end as int) == sample.loop_end * stored.length / crate::numeric::max(stored.original_length as int, 1) / 2,
        sample.loop_end * stored.length / crate::numeric::max(stored.original_length as int, 1) / 2 < 65536,
    ensures
        ({
            let start = info[30 * slot + 26] * 256 + info[30 * slot + 27];
            let length = info[30 * slot + 28] * 256 + info[30 * slot + 29];
            let end = loop_value_of(stored, sample.loop_end as int) as int;
            &&& start == loop_value_of(stored, sample.loop_start as int)
            &&& start + length <= end <= start + length + 1
        }),
{
    let o = crate::numeric::max(stored.original_length as int, 1);
    let len = stored.length as int;
    let a = sample.loop_start as int;
    let b = sample.loop_end - sample.loop_start;
    assert(0 <= a * len <= sample.loop_end * len) by (nonlinear_arith)
        requires 0 <= a <= sample.loop_end, len > 0;
    assert(0 <= b * len) by (nonlinear_arith)
        requires 0 <= b, len > 0;
    assert(a * len + b * len == sample.loop_end * len) by (nonlinear_arith)
        requires a + b == sample.loop_end;
    let p = a * len / o;
    let q = b * len / o;
    let r = sample.loop_end * len / o;
    assert(p + q <= r <= p + q + 1) by (nonlinear_arith)
        requires o >= 1, p == a * len / o, q == b * len / o, r == (a * len + b * len) / o, a * len >= 0, b * len >= 0;
    assert(p / 2 + q / 2 <= r / 2 <= p / 2 + q / 2 + 1) by (nonlinear_arith)
        requires p + q <= r <= p + q + 1, p >= 0, q >= 0;
    assert(0 <= p <= r) by (nonlinear_arith)
        requires o >= 1, p == a * len / o, r == sample.loop_end * len / o, 0 <= a * len <= sample.loop_end * len;
    assert(0 <= q / 2 <= r / 2) by (nonlinear_arith)
        requires p + q <= r, p >= 0, q >= 0;
    let sw = loop_value_of(stored, a) as u16;
    let lw = loop_value_of(stored, b) as u16;
    assert(sw as int == p / 2);
    assert(lw as int == q / 2);
    assert(info[30 * slot + 26] * 256 + info[30 * slot + 27] == sw as int);
    assert(info[30 * slot + 28] * 256 + info[30 * slot + 29] == lw as int);
}

/// Slot `slot` of the header as it stands once the first `filled_below` instruments are
/// written, `datas` holding the data of their first samples.
pub open spec fn slot_ok(info: Seq<u8>, slot: int, instruments: Seq<InstrumentData>, infos: Seq<ModInstrumentInfo>,
    datas: Seq<Seq<u8>>, filled_below: int) -> bool {
    if slot < filled_below && instruments[slot].samples@.len() > 0 {
        &&& filled_slot(info, slot, instruments[slot], infos[slot].fine_tune as int)
        &&& slot_sizes(info, slot, instruments[slot].samples@[0], infos[slot], datas[slot].len() as int)
    } else {
        blank_slot(info, slot)
    }
}

/// The data of each instrument, one after the other.
pub open spec fn concat_data(datas: Seq<Seq<u8>>) -> Seq<u8>
    decreases datas.len(),
{
    if datas.len() == 0 { Seq::empty() } else { concat_data(datas.drop_last()) + datas.last() }
}

/// The sample-information block `info` and sample data `pcm` of a MOD file for `instruments`
/// (at most 31 of them) whose first samples came to the data `datas` (empty for an instrument
/// without samples or whose sample was refused), with `infos` the properties stored for them.
pub open spec fn samples_written(info: Seq<u8>, pcm: Seq<u8>, instruments: Seq<InstrumentData>, infos: Seq<ModInstrumentInfo>,
    datas: Seq<Seq<u8>>) -> bool {
    &&& info.len() == SAMPLE_INFO_BLOCK_SIZE
    &&& datas.len() == min(instruments.len() as int, 31)
    &&& forall|i: int| 0 <= i < datas.len() ==> (#[trigger] datas[i]).len() <= MAX_SAMPLE_LENGTH_MOD
    &&& pcm == concat_data(datas)
    &&& forall|slot: int| 0 <= slot < 31 ==> #[trigger] slot_ok(info, slot, instruments, infos, datas, instruments.len() as int)
}

/// What the sample pass keeps of the source's answer `answer` for an instrument's first sample
/// `sample`: the data (empty unless encoded data with channels fits a MOD sample) and the
/// instrument's encoder entry, which goes from `before` to `after` (stored properties for
/// encoded data with channels, else unchanged).
pub open spec fn answer_kept(before: ModInstrumentInfo, after: ModInstrumentInfo, sample: SampleData,
    answer: Result<Option<EncodedSample>, Error>, data: Seq<u8>) -> bool {
    match answer {
        Ok(Some(s)) => if s.original_channels == 0 {
            after == before && data.len() == 0
        } else {
            &&& after == stored_sample_info(s, sample)
            &&& data == (if s.encoded_pcm@.len() <= MAX_SAMPLE_LENGTH_MOD { s.encoded_pcm@ } else { Seq::<u8>::empty() })
        },
        _ => after == before && data.len() == 0,
    }
}

/// Instrument `i` went through the sample pass with `source`: an instrument without samples
/// keeps its entry and has no data; otherwise the entry and data are what the pass keeps of an
/// answer `source` gives for its first sample.
pub open spec fn instrument_sampled<S: ModSampleSource>(source: S, settings: ModSettings, i: int, instrument: InstrumentData,
    before: ModInstrumentInfo, after: ModInstrumentInfo, data: Seq<u8>) -> bool {
    if instrument.samples@.len() == 0 {
        after == before && data.len() == 0
    } else {
        exists|answer: Result<Option<EncodedSample>, Error>|
            #[trigger] answer_kept(before, after, instrument.samples@[0], answer, data)
            && source.encodes(i as usize, instrument.samples@[0], settings, answer)
    }
}

/// The first `datas.len()` instruments went through the sample pass with `source`, taking the
/// encoder entries from `before` to `after`; the entries of the others are unchanged.
pub open spec fn samples_from_source<S: ModSampleSource>(source: S, settings: ModSettings, instruments: Seq<InstrumentData>,
    before: Seq<ModInstrumentInfo>, after: Seq<ModInstrumentInfo>, datas: Seq<Seq<u8>>) -> bool {
    &&& forall|i: int| 0 <= i < datas.len()
        ==> #[trigger] instrument_sampled(source, settings, i, instruments[i], before[i], after[i], datas[i])
    &&& forall|i: int| datas.len() <= i < after.len() ==> #[trigger] after[i] == before[i]
}

/// The sample block `info` and data `pcm` are those [`samples_written`] describes for data
/// that the sample pass took from `source` (see [`samples_from_source`]).
pub open spec fn samples_encoded<S: ModSampleSource>(source: S, settings: ModSettings, info: Seq<u8>, pcm: Seq<u8>,
    instruments: Seq<InstrumentData>, before: Seq<ModInstrumentInfo>, infos: Seq<ModInstrumentInfo>) -> bool {
    exists|datas: Seq<Seq<u8>>| #[trigger] samples_written(info, pcm, instruments, infos, datas)
        && samples_from_source(source, settings, instruments, before, infos, datas)
}

/// Builds the 930-byte sample-information block (31 slots of 30 bytes) and the concatenated
/// sample data of the first 31 instruments, taking each instrument's first sample from
/// `samples`. Refused samples are logged and written empty. Whatever the source answers, the
/// block and the data are those [`samples_written`] describes for some data of each sample.
#[verifier::spinoff_prover]
#[verifier::rlimit(60)]
pub fn get_all_samples_data<S: ModSampleSource, L: ConversionLog>(
    instruments: &[InstrumentData],
    settings: &ModSettings,
    samples: &S,
    encoder: &mut ModEncoder,
    log: &mut L,
) -> (r: Result<(Vec<u8>, Vec<u8>), Error>)
    requires
        old(encoder)@.instruments.len() == instruments@.len(),
        loops_ordered(*samples, *settings, instruments@),
    ensures
        final(encoder)@.channels == old(encoder)@.channels,
        final(encoder)@.ticks_per_row == old(encoder)@.ticks_per_row,
        final(encoder)@.settings == old(encoder)@.settings,
        final(encoder)@.playback_engine_version == old(encoder)@.playback_engine_version,
        final(encoder)@.pitch_compatibility_mode == old(encoder)@.pitch_compatibility_mode,
        final(encoder)@.sample_offset_compatibility_mode == old(encoder)@.sample_offset_compatibility_mode,
        final(encoder)@.instruments.len() == old(encoder)@.instruments.len(),
        r is Ok,
        r matches Ok((info, pcm)) ==> samples_encoded(*samples, *settings, info@, pcm@, instruments@, old(encoder)@.instruments,
            final(encoder)@.instruments),
        r matches Ok((info, pcm)) ==> pcm@.len() <= 31 * MAX_SAMPLE_LENGTH_MOD,
        instrument_infos_bounded(old(encoder)@.instruments) ==> instrument_infos_bounded(final(encoder)@.instruments),
{
    let total_instruments = if instruments.len() < MAX_INSTRUMENTS { instruments.len() } else { MAX_INSTRUMENTS };
    if instruments.len() > MAX_INSTRUMENTS {
        log.log(LogLevel::Warning, LogMessage::InstrumentsTruncated { count: instruments.len(), max: MAX_INSTRUMENTS });
    }
    let mut sample_info: Vec<u8> = vec![0u8; SAMPLE_INFO_BLOCK_SIZE];
    let mut i: usize = 0;
    while i < SAMPLE_INFO_BLOCK_SIZE
        invariant
            sample_info@.len() == SAMPLE_INFO_BLOCK_SIZE,
            i % 30 == 0,
            i <= SAMPLE_INFO_BLOCK_SIZE,
            forall|slot: int| 0 <= slot < i / 30 ==> #[trigger] blank_slot(sample_info@, slot),
            forall|k: int| i <= k < 930 ==> sample_info@[k] == 0,
        decreases SAMPLE_INFO_BLOCK_SIZE - i,
    {
        let ghost prev = sample_info@;
        sample_info.set(i + 29, 1);
        proof {
            assert forall|slot: int| 0 <= slot < (i + 30) / 30 implies #[trigger] blank_slot(sample_info@, slot) by {
                if slot < i / 30 {
                    assert(blank_slot(prev, slot));
                    assert forall|k: int| 0 <= k < 29 implies #[trigger] sample_info@[30 * slot + k] == 0 by {
                        assert(prev[30 * slot + k] == 0);
                    }
                } else {
                    assert(slot == i / 30);
                    assert forall|k: int| 0 <= k < 29 implies #[trigger] sample_info@[30 * slot + k] == 0 by {
                        assert(30 * slot + k >= i);
                    }
                }
            }
        }
        i += 30;
    }
    let mut pcm: Vec<u8> = Vec::new();
    let ghost mut datas: Seq<Seq<u8>> = Seq::empty();
    let mut ci: usize = 0;
    while ci < total_instruments
        invariant
            ci <= total_instruments,
            total_instruments == min(instruments@.len() as int, 31),
            sample_info@.len() == SAMPLE_INFO_BLOCK_SIZE,
            encoder@.instruments.len() == instruments@.len(),
            loops_ordered(*samples, *settings, instruments@),
            encoder@.channels == old(encoder)@.channels,
            encoder@.ticks_per_row == old(encoder)@.ticks_per_row,
            encoder@.settings == old(encoder)@.settings,
            encoder@.playback_engine_version == old(encoder)@.playback_engine_version,
            encoder@.pitch_compatibility_mode == old(encoder)@.pitch_compatibility_mode,
            encoder@.sample_offset_compatibility_mode == old(encoder)@.sample_offset_compatibility_mode,
            datas.len() == ci,
            forall|j: int| 0 <= j < ci ==> (#[trigger] datas[j]).len() <= MAX_SAMPLE_LENGTH_MOD,
            pcm@ == concat_data(datas),
            forall|slot: int| 0 <= slot < 31 ==> #[trigger] slot_ok(sample_info@, slot, instruments@, encoder@.instruments, datas, ci as int),
            pcm@.len() <= ci * MAX_SAMPLE_LENGTH_MOD,
            instrument_infos_bounded(old(encoder)@.instruments) ==> instrument_infos_bounded(encoder@.instruments),
            old(encoder)@.instruments.len() == instruments@.len(),
            forall|j: int| ci <= j < instruments@.len() ==> #[trigger] encoder@.instruments[j] == old(encoder)@.instruments[j],
            forall|j: int| 0 <= j < ci ==> #[trigger] instrument_sampled(*samples, *settings, j, instruments@[j],
                old(encoder)@.instruments[j], encoder@.instruments[j], datas[j]),
        decreases total_instruments - ci,
    {
        let instrument = &instruments[ci];
        log.log(LogLevel::Info, LogMessage::ProcessingSample {
            number: ci + 1,
            total: total_instruments,
            name: instrument.name.clone(),
        });
        if instrument.samples.len() > 1 {
            log.log(LogLevel::Error, LogMessage::MultipleSamples { instrument: ci + 1 });
        }
        if instrument.samples.len() == 0 {
            let ghost datas_before = datas;
            proof {
                datas = datas.push(Seq::empty());
                assert(datas.drop_last() =~= datas_before);
                assert(concat_data(datas) =~= concat_data(datas_before));
                assert forall|slot: int| 0 <= slot < 31 implies #[trigger] slot_ok(sample_info@, slot, instruments@, encoder@.instruments, datas, ci + 1) by {
                    assert(slot_ok(sample_info@, slot, instruments@, encoder@.instruments, datas_before, ci as int));
                    if slot < ci && instruments@[slot].samples@.len() > 0 {
                        assert(datas[slot] == datas_before[slot]);
                    }
                }
                assert forall|j: int| 0 <= j < ci + 1 implies #[trigger] instrument_sampled(*samples, *settings, j, instruments@[j],
                    old(encoder)@.instruments[j], encoder@.instruments[j], datas[j]) by {
                    if j < ci {
                        assert(datas[j] == datas_before[j]);
                    } else {
                        assert(instruments@[j].samples@.len() == 0);
                    }
                }
            }
            ci += 1;
            continue;
        }
        let sample = &instrument.samples[0];
        let ghost before = encoder@;
        let processed = process_one_sample(ci, sample, settings, samples, encoder);
        let ghost processed_view = processed;
        let sample_data = match processed {
            Ok(pcm_bytes) => pcm_bytes,
            Err(e) => {
                log.log(LogLevel::Error, LogMessage::SampleFailed(e));
                Vec::new()
            },
        };
        let ghost answer = choose|a: Result<Option<EncodedSample>, Error>|
            sample_recorded(before, encoder@, ci as int, *sample, a, processed_view)
            && samples.encodes(ci, *sample, *settings, a);
        proof {
            assert(before.instruments[ci as int] == old(encoder)@.instruments[ci as int]);
            assert(answer_kept(old(encoder)@.instruments[ci as int], encoder@.instruments[ci as int], *sample, answer, sample_data@));
            assert(instrument_sampled(*samples, *settings, ci as int, instruments@[ci as int],
                old(encoder)@.instruments[ci as int], encoder@.instruments[ci as int], sample_data@));
        }
        let ghost info_before = sample_info@;
        let offset = ci * SAMPLE_HEADER_SIZE;
        let name = write_name_bytes(instrument.name.as_str(), 22);
        let mut k: usize = 0;
        while k < 22
            invariant
                k <= 22,
                offset == ci * 30,
                ci < 31,
                name@ == name_bytes(encode_utf8(instrument.name@), 22),
                sample_info@.len() == SAMPLE_INFO_BLOCK_SIZE,
                forall|j: int| 0 <= j < 930 && !(offset <= j < offset + k) ==> sample_info@[j] == info_before[j],
                forall|j: int| 0 <= j < k ==> sample_info@[offset + j] == name@[j],
            decreases 22 - k,
        {
            sample_info.set(offset + k, name[k]);
            k += 1;
        }
        write_u16_be(sample_info.as_mut_slice(), offset + 22, (sample_data.len() / 2) as u16);
        let ft = encoder.sample_fine_tune(ci);
        let nibble = ((ft >> 4) & 0x0F) as u8;
        assert(nibble == fine_tune_nibble(ft as int)) by (bit_vector)
            requires nibble == ((ft >> 4) & 0x0F) as u8;
        sample_info.set(offset + 24, nibble);
        sample_info.set(offset + 25, sample.default_volume);
        if sample_data.len() > 0 && sample.loop_mode != LoopMode::Off {
            proof {
                assert(instruments@[ci as int].samples@.len() > 0);
                assert(answer_kept(old(encoder)@.instruments[ci as int], encoder@.instruments[ci as int], *sample, answer, sample_data@));
                assert(answer_keeps_data(answer));
                assert(samples.encodes(ci, instruments@[ci as int].samples@[0], *settings, answer));
            }
            let loop_start = encoder.get_loop_value(sample.loop_start, ci) as u16;
            let loop_len = encoder.get_loop_value(sample.loop_end - sample.loop_start, ci) as u16;
            write_u16_be(sample_info.as_mut_slice(), offset + 26, loop_start);
            write_u16_be(sample_info.as_mut_slice(), offset + 28, loop_len);
        }
        pcm.extend_from_slice(sample_data.as_slice());
        let ghost datas_before = datas;
        proof {
            datas = datas.push(sample_data@);
            assert(datas.drop_last() =~= datas_before);
            assert(pcm@ =~= concat_data(datas));
            assert(blank_slot(info_before, ci as int)) by {
                assert(slot_ok(info_before, ci as int, instruments@, before.instruments, datas_before, ci as int));
            }
            assert forall|slot: int| 0 <= slot < 31 implies #[trigger] slot_ok(sample_info@, slot, instruments@, encoder@.instruments, datas, ci + 1) by {
                assert(slot_ok(info_before, slot, instruments@, before.instruments, datas_before, ci as int));
                if slot != ci {
                    assert forall|k: int| 0 <= k < 30 implies #[trigger] sample_info@[30 * slot + k] == info_before[30 * slot + k] by {
                        assert(30 * slot + k < 30 * ci || 30 * slot + k >= 30 * ci + 30) by (nonlinear_arith)
                            requires 0 <= k < 30, slot != ci, 0 <= slot;
                    }
                    if slot < ci && instruments@[slot].samples@.len() > 0 {
                        assert(encoder@.instruments[slot] == before.instruments[slot]);
                        assert(datas[slot] == datas_before[slot]);
                        assert(sample_info@[30 * slot + 22] == info_before[30 * slot + 22]);
                        assert(sample_info@[30 * slot + 23] == info_before[30 * slot + 23]);
                        assert(sample_info@[30 * slot + 26] == info_before[30 * slot + 26]);
                        assert(sample_info@[30 * slot + 27] == info_before[30 * slot + 27]);
                        assert(sample_info@[30 * slot + 28] == info_before[30 * slot + 28]);
                        assert(sample_info@[30 * slot + 29] == info_before[30 * slot + 29]);
                    }
                } else {
                    assert(info_before[30 * slot + 26] == 0 && info_before[30 * slot + 27] == 0);
                    assert(info_before[30 * slot + 28] == 0 && info_before[30 * slot + 29] == 1);
                }
            }
            assert forall|j: int| 0 <= j < ci + 1 implies #[trigger] instrument_sampled(*samples, *settings, j, instruments@[j],
                old(encoder)@.instruments[j], encoder@.instruments[j], datas[j]) by {
                if j < ci {
                    assert(datas[j] == datas_before[j]);
                    assert(encoder@.instruments[j] == before.instruments[j]);
                }
            }
            assert forall|j: int| ci + 1 <= j < instruments@.len() implies #[trigger] encoder@.instruments[j] == old(encoder)@.instruments[j] by {
                assert(encoder@.instruments[j] == before.instruments[j]);
            }
        }
        ci += 1;
    }
    proof {
        assert forall|slot: int| 0 <= slot < 31 implies #[trigger] slot_ok(sample_info@, slot, instruments@, encoder@.instruments, datas, instruments@.len() as int) by {
            assert(slot_ok(sample_info@, slot, instruments@, encoder@.instruments, datas, ci as int));
        }
        assert(samples_written(sample_info@, pcm@, instruments@, encoder@.instruments, datas));
        assert(samples_from_source(*samples, *settings, instruments@, old(encoder)@.instruments, encoder@.instruments, datas));
        assert(samples_encoded(*samples, *settings, sample_info@, pcm@, instruments@, old(encoder)@.instruments, encoder@.instruments));
    }
    Ok((sample_info, pcm))
}


/// The converter's state between two pattern cells: the encoder, and the master-track command
/// of the current row with whether it still waits for a free effect slot.
pub struct PatternState {
    pub encoder: ModEncoderModel,
    pub master_command: (u8, u8),
    pub master_pending: bool,
}

pub open spec fn opt_string_view(o: Option<String>) -> Option<Seq<char>> {
    match o {
        Some(s) => Some(s@),
        None => None,
    }
}

/// The 1-based MOD sample number a cell's instrument column names (0 when none).
pub open spec fn cell_sample_number(cell: TrackLineData) -> int {
    match cell.instrument {
        Some(s) => match parse_hex_i32_spec(s@) {
            Some(v) => v + 1,
            None => 0,
        },
        None => 0,
    }
}

/// Start of a row (channel 0): the ticks per row take the row's tick command, and the row's
/// first master-track column supplies a pending command when it converts to a nonzero one.
pub open spec fn row_start(st: PatternState, pattern: PatternData, row: int, nc: int, nmc: int, pev: int) -> PatternState {
    let encoder = ModEncoderModel {
        ticks_per_row: ticks_per_row_for_line(pattern, row, nc, nmc, pev, st.encoder.ticks_per_row as int) as i32,
        ..st.encoder
    };
    let index = row * nmc;
    let found = if nmc >= 1 && index < pattern.master_track_line_data@.len() {
        let cell = pattern.master_track_line_data@[index];
        if cell.effect_number@.len() > 0 {
            match encoder.master_track_command(cell.effect_number@, cell.effect_value@) {
                Some(cmd) => if cmd.0 as int + cmd.1 as int > 0 { Some(cmd) } else { None },
                None => None,
            }
        } else {
            None
        }
    } else {
        None
    };
    match found {
        Some(cmd) => PatternState { encoder, master_command: cmd, master_pending: true },
        None => PatternState { encoder, master_command: st.master_command, master_pending: false },
    }
}

pub open spec fn nonzero(c: (u8, u8)) -> bool {
    c.0 as int + c.1 as int > 0
}

/// Note trigger of a cell: the encoder after it and the period (0 when none or refused).
pub open spec fn cell_note(enc: ModEncoderModel, cell: TrackLineData, sample_number: int, channel: int) -> (ModEncoderModel, int) {
    match cell.note {
        None => (enc, 0),
        Some(note) => {
            let effect = if cell.effect_number@.len() == 0 { None } else { Some(cell.effect_number@) };
            match tone_portamento_triggered(effect, opt_string_view(cell.volume), opt_string_view(cell.panning)) {
                None => (enc, 0),
                Some(tp) => {
                    let (channels, p) = enc.trigger(note@, sample_number - 1, channel, tp);
                    (enc.with_channels(channels), match p { Some(v) => v as int, None => 0 })
                },
            }
        },
    }
}

pub open spec fn cell_note_defined(enc: ModEncoderModel, cell: TrackLineData, sample_number: int, channel: int) -> bool {
    cell.note matches Some(note) ==> {
        let effect = if cell.effect_number@.len() == 0 { None } else { Some(cell.effect_number@) };
        tone_portamento_triggered(effect, opt_string_view(cell.volume), opt_string_view(cell.panning)) is Some
            ==> enc.trigger_defined(note@, sample_number - 1, channel)
    }
}

/// The effect slot of a cell: the effect column, else the volume, delay and panning columns in
/// turn, each taken only when it converts to a nonzero command.
pub open spec fn cell_effect(enc: ModEncoderModel, cell: TrackLineData, sample_number: int, channel: int, triggered: bool) -> (ModEncoderModel, Option<(u8, u8)>) {
    let (enc, eff) = if cell.effect_number@.len() > 0 {
        let (channels, r) = enc.mod_effect(cell.effect_number@, cell.effect_value@, sample_number, channel, triggered);
        (enc.with_channels(channels), match r { Some(c) => if nonzero(c) { Some(c) } else { None }, None => None })
    } else {
        (enc, None)
    };
    if eff is Some {
        (enc, eff)
    } else {
        let (enc, eff) = match cell.volume {
            Some(v) => {
                let (channels, c) = enc.volume_to_effect(v@, channel, triggered);
                (enc.with_channels(channels), if nonzero(c) { Some(c) } else { None })
            },
            None => (enc, None),
        };
        if eff is Some {
            (enc, eff)
        } else {
            let eff = match cell.delay {
                Some(d) => {
                    let c = enc.delay_to_effect(d@);
                    if nonzero(c) { Some(c) } else { None }
                },
                None => None,
            };
            if eff is Some {
                (enc, eff)
            } else {
                match cell.panning {
                    Some(p) => {
                        let (channels, c) = enc.panning_to_effect(p@, channel, triggered);
                        (enc.with_channels(channels), if nonzero(c) { Some(c) } else { None })
                    },
                    None => (enc, None),
                }
            }
        }
    }
}

pub open spec fn cell_effect_defined(enc: ModEncoderModel, cell: TrackLineData, sample_number: int, channel: int, triggered: bool) -> bool {
    let (enc1, eff1) = if cell.effect_number@.len() > 0 {
        let (channels, r) = enc.mod_effect(cell.effect_number@, cell.effect_value@, sample_number, channel, triggered);
        (enc.with_channels(channels), match r { Some(c) => if nonzero(c) { Some(c) } else { None }, None => None })
    } else {
        (enc, None)
    };
    let (enc2, eff2) = match cell.volume {
        Some(v) => {
            let (channels, c) = enc1.volume_to_effect(v@, channel, triggered);
            (enc1.with_channels(channels), if nonzero(c) { Some(c) } else { None })
        },
        None => (enc1, None),
    };
    let eff3 = match cell.delay {
        Some(d) => if nonzero(enc2.delay_to_effect(d@)) { Some(enc2.delay_to_effect(d@)) } else { None },
        None => None,
    };
    &&& cell.effect_number@.len() > 0 ==> enc.mod_effect_defined(cell.effect_number@, cell.effect_value@, sample_number, channel, triggered)
    &&& eff1 is None ==> (cell.volume matches Some(v) ==> enc1.volume_to_effect_defined(v@, channel, triggered))
    &&& (eff1 is None && eff2 is None) ==> (cell.delay matches Some(d) ==> enc2.delay_to_effect_defined(d@))
    &&& (eff1 is None && eff2 is None && eff3 is None) ==> (cell.panning matches Some(p) ==> enc2.panning_to_effect_defined(p@, channel, triggered))
}

/// The four bytes of a MOD pattern cell: sample number split over the high nibbles of bytes 0
/// and 2, the 12-bit period, the effect number and value.
pub open spec fn pack_cell(sample_number: i32, period: i32, effect_num: i32, effect_val: i32) -> Seq<u8> {
    seq![
        ((sample_number & 0xF0) | ((period & 0xF00) >> 8)) as u8,
        (period & 0xFF) as u8,
        (((sample_number & 0xF) << 4) | effect_num) as u8,
        effect_val as u8,
    ]
}

/// How a MOD player reads a cell: the sample number from the high nibbles of bytes 0 and 2, the
/// period from the low nibble of byte 0 and byte 1, the effect from the low nibble of byte 2,
/// and its value from byte 3.
pub open spec fn unpack_cell(b: Seq<u8>) -> (int, int, int, int) {
    (
        (b[0] as int / 16) * 16 + b[2] as int / 16,
        (b[0] as int % 16) * 256 + b[1] as int,
        b[2] as int % 16,
        b[3] as int,
    )
}

/// Reading a cell back gives the sample number, period, effect and value that were packed,
/// whenever each fits its field (a byte, twelve bits, a nibble and a byte).
pub proof fn law_mod_cell_unpacks(sample_number: i32, period: i32, effect_num: i32, effect_val: i32)
    requires
        0 <= sample_number < 256,
        0 <= period < 4096,
        0 <= effect_num < 16,
        0 <= effect_val < 256,
    ensures
        unpack_cell(pack_cell(sample_number, period, effect_num, effect_val))
            == (sample_number as int, period as int, effect_num as int, effect_val as int),
{
    let b0 = ((sample_number & 0xF0) | ((period & 0xF00) >> 8)) as u8;
    let b1 = (period & 0xFF) as u8;
    let b2 = (((sample_number & 0xF) << 4) | effect_num) as u8;
    assert((b0 as int / 16) * 16 + b2 as int / 16 == sample_number as int) by (bit_vector)
        requires
            0 <= sample_number < 256, 0 <= period < 4096, 0 <= effect_num < 16,
            b0 == ((sample_number & 0xF0) | ((period & 0xF00) >> 8)) as u8,
            b2 == (((sample_number & 0xF) << 4) | effect_num) as u8;
    assert((b0 as int % 16) * 256 + b1 as int == period as int) by (bit_vector)
        requires
            0 <= sample_number < 256, 0 <= period < 4096,
            b0 == ((sample_number & 0xF0) | ((period & 0xF00) >> 8)) as u8,
            b1 == (period & 0xFF) as u8;
    assert(b2 as int % 16 == effect_num as int) by (bit_vector)
        requires
            0 <= sample_number < 256, 0 <= effect_num < 16,
            b2 == (((sample_number & 0xF) << 4) | effect_num) as u8;
}

/// Conversion of cell `i` of a pattern from state `st`: the next state and the cell's bytes.
#[verifier::opaque]
pub open spec fn cell_step(st: PatternState, pattern: PatternData, nc: int, nmc: int, pev: int, i: int) -> (PatternState, Seq<u8>) {
    let row = i / nc;
    let channel = i % nc;
    let st = if channel == 0 { row_start(st, pattern, row, nc, nmc, pev) } else { st };
    let cell = pattern.tracks_line_data@[i];
    if !(cell.is_set || st.master_pending) {
        (st, pack_cell(0, 0, 0, 0))
    } else {
        let sn = cell_sample_number(cell);
        let (enc, period) = cell_note(st.encoder, cell, sn, channel);
        let (enc, eff) = cell_effect(enc, cell, sn, channel, period != 0);
        match eff {
            Some(c) => (PatternState { encoder: enc, ..st }, pack_cell(sn as i32, period as i32, c.0 as i32, c.1 as i32)),
            None => if st.master_pending {
                (PatternState { encoder: enc, master_pending: false, ..st },
                    pack_cell(sn as i32, period as i32, st.master_command.0 as i32, st.master_command.1 as i32))
            } else {
                (PatternState { encoder: enc, ..st }, pack_cell(sn as i32, period as i32, 0, 0))
            },
        }
    }
}

#[verifier::opaque]
pub open spec fn cell_defined(st: PatternState, pattern: PatternData, nc: int, nmc: int, pev: int, i: int) -> bool {
    let row = i / nc;
    let channel = i % nc;
    &&& channel == 0 ==> row_cells_exist(pattern, row, nc, nmc, pev)
    &&& {
        let st = if channel == 0 { row_start(st, pattern, row, nc, nmc, pev) } else { st };
        let cell = pattern.tracks_line_data@[i];
        (cell.is_set || st.master_pending) ==> {
            let sn = cell_sample_number(cell);
            let (enc, period) = cell_note(st.encoder, cell, sn, channel);
            &&& (cell.instrument matches Some(s) ==> parse_hex_i32_spec(s@) != Some(i32::MAX))
            &&& cell_note_defined(st.encoder, cell, sn, channel)
            &&& cell_effect_defined(enc, cell, sn, channel, period != 0)
        }
    }
}

/// The state and bytes after converting the first `n` cells of a pattern.
pub open spec fn pattern_run(st: PatternState, pattern: PatternData, nc: int, nmc: int, pev: int, n: int) -> (PatternState, Seq<u8>)
    decreases n,
{
    if n <= 0 {
        (st, seq![])
    } else {
        let (prev, bytes) = pattern_run(st, pattern, nc, nmc, pev, n - 1);
        let (next, cell) = cell_step(prev, pattern, nc, nmc, pev, n - 1);
        (next, bytes + cell)
    }
}

/// Every step of converting the first `n` cells stays within `i32` arithmetic and reads only
/// cells and instruments that exist.
pub open spec fn pattern_run_defined(st: PatternState, pattern: PatternData, nc: int, nmc: int, pev: int, n: int) -> bool
    decreases n,
{
    n <= 0 || (pattern_run_defined(st, pattern, nc, nmc, pev, n - 1)
        && cell_defined(pattern_run(st, pattern, nc, nmc, pev, n - 1).0, pattern, nc, nmc, pev, n - 1))
}

/// Cells of a pattern that are written: the first 64 rows.
pub open spec fn pattern_cells(pattern: PatternData, nc: int) -> int {
    min(pattern.num_rows as int, 64) * nc
}


pub open spec fn state_of(encoder: ModEncoderModel, master_command: (u8, u8), master_pending: bool) -> PatternState {
    PatternState { encoder, master_command, master_pending }
}

/// Start of a row: updates the ticks per row and reads the row's master-track command.
fn start_row<L: ConversionLog>(
    encoder: &mut ModEncoder,
    pattern: &PatternData,
    row: usize,
    num_channels: usize,
    num_master_track_columns: usize,
    playback_engine_version: i32,
    master_command: &mut (u8, u8),
    master_pending: &mut bool,
    log: &mut L,
)
    requires
        row_cells_exist(*pattern, row as int, num_channels as int, num_master_track_columns as int, playback_engine_version as int),
        row * num_master_track_columns <= usize::MAX,
    ensures
        state_of(final(encoder)@, *final(master_command), *final(master_pending))
            == row_start(state_of(old(encoder)@, *old(master_command), *old(master_pending)), *pattern, row as int,
                num_channels as int, num_master_track_columns as int, playback_engine_version as int),
{
    let new_ticks = compute_ticks_per_row_for_line(
        pattern,
        row,
        num_channels,
        num_master_track_columns,
        playback_engine_version,
        encoder.ticks_per_row(),
    );
    encoder.set_ticks_per_row(new_ticks);
    if *master_pending {
        log.log(LogLevel::Error, LogMessage::UnusedMasterTrackCommand { row, channel: 1 });
    }
    *master_pending = false;
    if num_master_track_columns >= 1 {
        let index = row * num_master_track_columns;
        if index < pattern.master_track_line_data.len() {
            let mt_cell = &pattern.master_track_line_data[index];
            if !mt_cell.effect_number.as_str().is_empty() {
                if let Ok(cmd) = encoder.get_commands_from_master_track(mt_cell.effect_number.as_str(), mt_cell.effect_value.as_str()) {
                    if cmd.0 as u32 + cmd.1 as u32 > 0 {
                        *master_command = cmd;
                        *master_pending = true;
                    }
                }
            }
        }
    }
}


/// The note phase of a cell: triggers its note, if any. Refusals are logged.
fn encode_cell_note<L: ConversionLog>(
    encoder: &mut ModEncoder,
    cell: &TrackLineData,
    sample_number: i32,
    row: usize,
    channel: usize,
    log: &mut L,
) -> (r: i32)
    requires
        channel < usize::MAX,
        sample_number > i32::MIN,
        cell_note_defined(old(encoder)@, *cell, sample_number as int, channel as int),
    ensures
        (final(encoder)@, r as int) == cell_note(old(encoder)@, *cell, sample_number as int, channel as int),
{
    let mut mod_period: i32 = 0;
    if let Some(note) = &cell.note {
        let effect = non_empty(cell.effect_number.as_str());
        let volume = match &cell.volume { Some(v) => Some(v.as_str()), None => None };
        let panning = match &cell.panning { Some(p) => Some(p.as_str()), None => None };
        match ModEncoder::is_tone_portamento_triggered(effect, volume, panning) {
            Ok(is_tone_portamento_triggered) => {
                match encoder.trigger_mod_note(note.as_str(), sample_number - 1, channel, is_tone_portamento_triggered) {
                    Ok(period) => mod_period = period,
                    Err(e) => log.log(LogLevel::Error, LogMessage::NoteFailed { row, instrument: sample_number - 1, channel: channel + 1, error: e }),
                }
            },
            Err(e) => log.log(LogLevel::Error, LogMessage::NoteFailed { row, instrument: sample_number - 1, channel: channel + 1, error: e }),
        }
    }
    mod_period
}

/// The effect phase of a cell: the first column that converts to a nonzero command. Refusals
/// are logged.
fn encode_cell_effect<L: ConversionLog>(
    encoder: &mut ModEncoder,
    cell: &TrackLineData,
    sample_number: i32,
    row: usize,
    channel: usize,
    triggered: bool,
    log: &mut L,
) -> (r: Option<(u8, u8)>)
    requires
        channel < usize::MAX,
        cell_effect_defined(old(encoder)@, *cell, sample_number as int, channel as int, triggered),
    ensures
        (final(encoder)@, r) == cell_effect(old(encoder)@, *cell, sample_number as int, channel as int, triggered),
{
    if !cell.effect_number.as_str().is_empty() {
        match encoder.get_mod_effect(cell.effect_number.as_str(), cell.effect_value.as_str(), sample_number, channel, triggered) {
            Ok((n, v)) => {
                if n as u32 + v as u32 > 0 {
                    return Some((n, v));
                }
            },
            Err(e) => log.log(LogLevel::Error, LogMessage::EffectFailed { row, channel: channel + 1, error: e }),
        }
    }
    if let Some(volume) = &cell.volume {
        let (n, v) = encoder.transpose_volume_to_command_effect(volume.as_str(), sample_number, channel, triggered);
        if n as u32 + v as u32 > 0 {
            return Some((n, v));
        }
    }
    if let Some(delay) = &cell.delay {
        let (n, v) = encoder.transpose_delay_to_command_effect(delay.as_str());
        if n as u32 + v as u32 > 0 {
            return Some((n, v));
        }
    }
    if let Some(panning) = &cell.panning {
        let (n, v) = encoder.transpose_panning_to_command_effect(panning.as_str(), sample_number, channel, triggered);
        if n as u32 + v as u32 > 0 {
            return Some((n, v));
        }
    }
    None
}

/// Converts one pattern cell, returning its four bytes.
fn encode_cell<L: ConversionLog>(
    encoder: &mut ModEncoder,
    cell: &TrackLineData,
    row: usize,
    channel: usize,
    master_command: &(u8, u8),
    master_pending: &mut bool,
    log: &mut L,
) -> (r: (u8, u8, u8, u8))
    requires
        cell.is_set || *old(master_pending),
        channel < usize::MAX,
        cell.instrument matches Some(s) ==> parse_hex_i32_spec(s@) != Some(i32::MAX),
        cell_note_defined(old(encoder)@, *cell, cell_sample_number(*cell), channel as int),
        cell_effect_defined(cell_note(old(encoder)@, *cell, cell_sample_number(*cell), channel as int).0, *cell,
            cell_sample_number(*cell), channel as int, cell_note(old(encoder)@, *cell, cell_sample_number(*cell), channel as int).1 != 0),
    ensures
        ({
            let sn = cell_sample_number(*cell);
            let (enc, period) = cell_note(old(encoder)@, *cell, sn, channel as int);
            let (enc, eff) = cell_effect(enc, *cell, sn, channel as int, period != 0);
            &&& final(encoder)@ == enc
            &&& match eff {
                Some(c) => *final(master_pending) == *old(master_pending)
                    && seq![r.0, r.1, r.2, r.3] == pack_cell(sn as i32, period as i32, c.0 as i32, c.1 as i32),
                None => if *old(master_pending) {
                    !*final(master_pending)
                        && seq![r.0, r.1, r.2, r.3] == pack_cell(sn as i32, period as i32, master_command.0 as i32, master_command.1 as i32)
                } else {
                    *final(master_pending) == *old(master_pending)
                        && seq![r.0, r.1, r.2, r.3] == pack_cell(sn as i32, period as i32, 0, 0)
                },
            }
        }),
{
    let mut sample_number: i32 = 0;
    if let Some(instrument) = &cell.instrument {
        if let Some(v) = parse_hex_i32(instrument.as_str()) {
            sample_number = v + 1;
        }
    }
    let mod_period = encode_cell_note(encoder, cell, sample_number, row, channel, log);
    let (effect_num, effect_val): (i32, i32) = match encode_cell_effect(encoder, cell, sample_number, row, channel, mod_period != 0, log) {
        Some((n, v)) => (n as i32, v as i32),
        None => if *master_pending {
            *master_pending = false;
            (master_command.0 as i32, master_command.1 as i32)
        } else {
            (0, 0)
        },
    };
    let b0 = ((sample_number & 0xF0) | ((mod_period & 0xF00) >> 8)) as u8;
    let b1 = (mod_period & 0xFF) as u8;
    let b2 = (((sample_number & 0xF) << 4) | effect_num) as u8;
    let b3 = effect_val as u8;
    (b0, b1, b2, b3)
}

/// Whatever converts the first `n` cells of a pattern converts its first `m <= n` cells.
pub proof fn lemma_pattern_run_prefix(st: PatternState, pattern: PatternData, nc: int, nmc: int, pev: int, n: int, m: int)
    requires
        0 <= m <= n,
        pattern_run_defined(st, pattern, nc, nmc, pev, n),
    ensures
        pattern_run_defined(st, pattern, nc, nmc, pev, m),
    decreases n,
{
    if m < n {
        lemma_pattern_run_prefix(st, pattern, nc, nmc, pev, n - 1, m);
    }
}

proof fn lemma_cell_step_len(st: PatternState, pattern: PatternData, nc: int, nmc: int, pev: int, i: int)
    ensures
        cell_step(st, pattern, nc, nmc, pev, i).1.len() == 4,
{
    reveal(cell_step);
}

/// Converting the first `n` cells of a MOD pattern writes four bytes per cell.
pub proof fn lemma_pattern_run_len(st: PatternState, pattern: PatternData, nc: int, nmc: int, pev: int, n: int)
    requires
        0 <= n,
    ensures
        pattern_run(st, pattern, nc, nmc, pev, n).1.len() == 4 * n,
    decreases n,
{
    if n > 0 {
        lemma_pattern_run_len(st, pattern, nc, nmc, pev, n - 1);
        let prev = pattern_run(st, pattern, nc, nmc, pev, n - 1).0;
        lemma_cell_step_len(prev, pattern, nc, nmc, pev, n - 1);
    }
}

/// Converts cell `i` of a pattern, starting its row first when it is on channel 0.
fn convert_cell<L: ConversionLog>(
    encoder: &mut ModEncoder,
    pattern: &PatternData,
    i: usize,
    num_channels: usize,
    num_master_track_columns: usize,
    playback_engine_version: i32,
    master_command: &mut (u8, u8),
    master_pending: &mut bool,
    log: &mut L,
) -> (r: (u8, u8, u8, u8))
    requires
        i < pattern.tracks_line_data@.len(),
        num_channels > 0,
        (i / num_channels) * num_master_track_columns <= usize::MAX,
        cell_defined(state_of(old(encoder)@, *old(master_command), *old(master_pending)), *pattern,
            num_channels as int, num_master_track_columns as int, playback_engine_version as int, i as int),
    ensures
        (state_of(final(encoder)@, *final(master_command), *final(master_pending)), seq![r.0, r.1, r.2, r.3])
            == cell_step(state_of(old(encoder)@, *old(master_command), *old(master_pending)), *pattern,
                num_channels as int, num_master_track_columns as int, playback_engine_version as int, i as int),
{
    reveal(cell_step);
    reveal(cell_defined);
    let current_row = i / num_channels;
    let current_channel = i % num_channels;
    if current_channel == 0 {
        start_row(encoder, pattern, current_row, num_channels, num_master_track_columns, playback_engine_version,
            master_command, master_pending, log);
    }
    let cell = &pattern.tracks_line_data[i];
    assert(pack_cell(0, 0, 0, 0) =~= seq![0u8, 0u8, 0u8, 0u8]) by {
        assert(((0i32 & 0xF0) | ((0i32 & 0xF00) >> 8)) as u8 == 0u8) by (bit_vector);
        assert((0i32 & 0xFF) as u8 == 0u8) by (bit_vector);
        assert((((0i32 & 0xF) << 4) | 0i32) as u8 == 0u8) by (bit_vector);
    }
    if cell.is_set || *master_pending {
        encode_cell(encoder, cell, current_row, current_channel, master_command, master_pending, log)
    } else {
        (0u8, 0u8, 0u8, 0u8)
    }
}

pub open spec fn initial_pattern_state(encoder: ModEncoderModel) -> PatternState {
    PatternState { encoder, master_command: (0u8, 0u8), master_pending: false }
}

/// What converting a pattern needs: representable sizes, the cells it reads, and in-range
/// arithmetic at every step.
pub open spec fn pattern_convertible(encoder: ModEncoderModel, pattern: PatternData, nc: int, nmc: int, pev: int) -> bool {
    &&& 256 * nc <= usize::MAX
    &&& pattern.num_rows * nc <= usize::MAX
    &&& 64 * nmc <= usize::MAX
    &&& pattern_cells(pattern, nc) <= pattern.tracks_line_data@.len()
    &&& pattern_run_defined(initial_pattern_state(encoder), pattern, nc, nmc, pev, pattern_cells(pattern, nc))
}

/// Converts the first 64 rows of a pattern into MOD's fixed 64-row, 4-bytes-per-cell layout;
/// rows a shorter pattern lacks stay zero.
pub fn get_pattern_data<L: ConversionLog>(
    pattern: &PatternData,
    num_channels: usize,
    num_master_track_columns: usize,
    playback_engine_version: i32,
    encoder: &mut ModEncoder,
    log: &mut L,
) -> (r: Result<Vec<u8>, Error>)
    requires
        pattern_convertible(old(encoder)@, *pattern, num_channels as int, num_master_track_columns as int, playback_engine_version as int),
    ensures
        ({
            let n = pattern_cells(*pattern, num_channels as int);
            let (st, bytes) = pattern_run(initial_pattern_state(old(encoder)@), *pattern, num_channels as int,
                num_master_track_columns as int, playback_engine_version as int, n);
            &&& r matches Ok(data) && data@ == bytes + Seq::new((256 * num_channels - 4 * n) as nat, |k: int| 0u8)
            &&& final(encoder)@ == st.encoder
        }),
{
    if pattern.num_rows > NUM_ROWS_PER_PATTERN {
        log.log(LogLevel::Warning, LogMessage::PatternRowsTruncated { rows: pattern.num_rows, max: NUM_ROWS_PER_PATTERN });
    }
    let max_track_lines = NUM_ROWS_PER_PATTERN * num_channels;
    let mut data: Vec<u8> = vec![0u8; NUM_ROWS_PER_PATTERN * 4 * num_channels];
    let all_lines = pattern.num_rows * num_channels;
    let cycles_to_do = if all_lines < max_track_lines { all_lines } else { max_track_lines };
    assert(cycles_to_do == pattern_cells(*pattern, num_channels as int)) by (nonlinear_arith)
        requires cycles_to_do == (if all_lines < max_track_lines { all_lines } else { max_track_lines }),
            all_lines == pattern.num_rows * num_channels, max_track_lines == 64 * num_channels;
    let ghost init = initial_pattern_state(encoder@);
    let ghost nc = num_channels as int;
    let ghost nmc = num_master_track_columns as int;
    let ghost pev = playback_engine_version as int;
    let mut master_command: (u8, u8) = (0, 0);
    let mut master_pending = false;
    let mut i: usize = 0;
    proof {
        lemma_pattern_run_len(init, *pattern, nc, nmc, pev, 0);
    }
    while i < cycles_to_do
        invariant
            i <= cycles_to_do,
            cycles_to_do == pattern_cells(*pattern, nc),
            cycles_to_do <= 64 * num_channels,
            nc == num_channels,
            nmc == num_master_track_columns,
            pev == playback_engine_version,
            256 * nc <= usize::MAX,
            64 * nmc <= usize::MAX,
            cycles_to_do <= pattern.tracks_line_data@.len(),
            data@.len() == 256 * num_channels,
            pattern_run_defined(init, *pattern, nc, nmc, pev, cycles_to_do as int),
            state_of(encoder@, master_command, master_pending) == pattern_run(init, *pattern, nc, nmc, pev, i as int).0,
            data@.subrange(0, 4 * i) == pattern_run(init, *pattern, nc, nmc, pev, i as int).1,
            forall|k: int| 4 * i <= k < data@.len() ==> data@[k] == 0,
        decreases cycles_to_do - i,
    {
        proof {
            lemma_pattern_run_prefix(init, *pattern, nc, nmc, pev, cycles_to_do as int, i + 1);
            lemma_pattern_run_len(init, *pattern, nc, nmc, pev, i as int);
        }
        let ghost prev = pattern_run(init, *pattern, nc, nmc, pev, i as int);
        assert((i / num_channels) * num_master_track_columns <= usize::MAX) by (nonlinear_arith)
            requires i < 64 * num_channels, 64 * nmc <= usize::MAX, num_channels > 0, nmc >= 0, nmc == num_master_track_columns;
        let bytes = convert_cell(encoder, pattern, i, num_channels, num_master_track_columns, playback_engine_version,
            &mut master_command, &mut master_pending, log);
        let ghost before_data = data@;
        let offset = i * 4;
        data.set(offset, bytes.0);
        data.set(offset + 1, bytes.1);
        data.set(offset + 2, bytes.2);
        data.set(offset + 3, bytes.3);
        proof {
            let next = pattern_run(init, *pattern, nc, nmc, pev, i + 1);
            assert(next.1 == prev.1 + cell_step(prev.0, *pattern, nc, nmc, pev, i as int).1);
            assert(data@.subrange(0, 4 * (i + 1)) =~= next.1);
        }
        i += 1;
    }
    proof {
        lemma_pattern_run_len(init, *pattern, nc, nmc, pev, cycles_to_do as int);
        assert(data@ =~= data@.subrange(0, 4 * cycles_to_do) + Seq::new((256 * num_channels - 4 * cycles_to_do) as nat, |k: int| 0u8));
    }
    Ok(data)
}

/// The distinct values of `s`, in the order of their first occurrence.
pub open spec fn distinct_values(s: Seq<u8>) -> Seq<u8>
    decreases s.len(),
{
    if s.len() == 0 {
        Seq::empty()
    } else {
        let d = distinct_values(s.drop_last());
        if d.contains(s.last()) { d } else { d.push(s.last()) }
    }
}

/// The largest value of `s`, 0 for an empty sequence.
pub open spec fn seq_max(s: Seq<u8>) -> u8
    decreases s.len(),
{
    if s.len() == 0 {
        0u8
    } else {
        let m = seq_max(s.drop_last());
        if s.last() > m { s.last() } else { m }
    }
}

/// A value occurs in `s` exactly when it occurs among its distinct values.
pub proof fn lemma_distinct_values_members(s: Seq<u8>)
    ensures
        forall|x: u8| s.contains(x) <==> #[trigger] distinct_values(s).contains(x),
    decreases s.len(),
{
    if s.len() > 0 {
        let t = s.drop_last();
        let dt = distinct_values(t);
        let ds = distinct_values(s);
        lemma_distinct_values_members(t);
        assert forall|x: u8| s.contains(x) implies #[trigger] ds.contains(x) by {
            let i = choose|i: int| 0 <= i < s.len() && s[i] == x;
            if i < s.len() - 1 {
                assert(t[i] == x);
                assert(t.contains(x));
                assert(dt.contains(x));
                let j = choose|j: int| 0 <= j < dt.len() && dt[j] == x;
                if !dt.contains(s.last()) {
                    assert(ds[j] == x);
                }
            } else if !dt.contains(s.last()) {
                assert(ds[dt.len() as int] == x);
            }
        }
        assert forall|x: u8| #[trigger] ds.contains(x) implies s.contains(x) by {
            let j = choose|j: int| 0 <= j < ds.len() && ds[j] == x;
            if j < dt.len() {
                assert(dt[j] == x);
                assert(dt.contains(x));
                assert(t.contains(x));
                let i = choose|i: int| 0 <= i < t.len() && t[i] == x;
                assert(s[i] == t[i]);
            } else {
                assert(s[s.len() - 1] == x);
            }
        }
    }
}

/// Finds the distinct pattern indices of a sequence, in order of first use.
fn distinct_pattern_indices(sequence: &[u8]) -> (r: Vec<u8>)
    ensures
        r@ == distinct_values(sequence@),
{
    let mut distinct: Vec<u8> = Vec::new();
    let mut i: usize = 0;
    while i < sequence.len()
        invariant
            i <= sequence@.len(),
            distinct@ == distinct_values(sequence@.take(i as int)),
        decreases sequence@.len() - i,
    {
        let v = sequence[i];
        let mut found = false;
        let mut j: usize = 0;
        while j < distinct.len()
            invariant
                j <= distinct@.len(),
                found <==> distinct@.take(j as int).contains(v),
            decreases distinct@.len() - j,
        {
            if distinct[j] == v {
                found = true;
            }
            proof {
                let t = distinct@.take(j as int);
                let t2 = distinct@.take(j + 1);
                assert(t2 =~= t.push(distinct@[j as int]));
                if t2.contains(v) {
                    let k = choose|k: int| 0 <= k < t2.len() && t2[k] == v;
                    if k < j {
                        assert(t[k] == v);
                    }
                }
                if t.contains(v) {
                    let k = choose|k: int| 0 <= k < t.len() && t[k] == v;
                    assert(t2[k] == v);
                }
                if distinct@[j as int] == v {
                    assert(t2[j as int] == v);
                }
            }
            j += 1;
        }
        proof {
            assert(distinct@.take(j as int) =~= distinct@);
            assert(sequence@.take(i + 1).drop_last() =~= sequence@.take(i as int));
        }
        if !found {
            distinct.push(v);
        }
        i += 1;
    }
    proof {
        assert(sequence@.take(i as int) =~= sequence@);
    }
    distinct
}

/// The largest of a sequence of pattern indices.
fn max_pattern_index(values: &Vec<u8>) -> (r: u8)
    ensures
        r == seq_max(values@),
{
    let mut m: u8 = 0;
    let mut i: usize = 0;
    while i < values.len()
        invariant
            i <= values@.len(),
            m == seq_max(values@.take(i as int)),
        decreases values@.len() - i,
    {
        proof {
            assert(values@.take(i + 1).drop_last() =~= values@.take(i as int));
        }
        if values[i] > m {
            m = values[i];
        }
        i += 1;
    }
    proof {
        assert(values@.take(i as int) =~= values@);
    }
    m
}

/// Converting one pattern from encoder state `enc`: the state after it and its bytes.
pub open spec fn converted_pattern(enc: ModEncoderModel, pattern: PatternData, nc: int, nmc: int, pev: int) -> (ModEncoderModel, Seq<u8>) {
    let n = pattern_cells(pattern, nc);
    let (st, bytes) = pattern_run(initial_pattern_state(enc), pattern, nc, nmc, pev, n);
    (st.encoder, bytes + Seq::new((256 * nc - 4 * n) as nat, |k: int| 0u8))
}

/// `buf` with `data` written at `offset`, grown with zeros where it is too short.
pub open spec fn place_block(buf: Seq<u8>, offset: int, data: Seq<u8>) -> Seq<u8> {
    let len = if buf.len() < offset + data.len() { offset + data.len() } else { buf.len() as int };
    Seq::new(len as nat, |j: int|
        if offset <= j < offset + data.len() { data[j - offset] } else if j < buf.len() { buf[j] } else { 0u8 })
}

/// The encoder state and the pattern area after converting the patterns `order[..k]` in turn,
/// each written at its index times the pattern size.
pub open spec fn patterns_run(enc: ModEncoderModel, patterns: Seq<PatternData>, order: Seq<u8>, nc: int, nmc: int, pev: int, k: int) -> (ModEncoderModel, Seq<u8>)
    decreases k,
{
    if k <= 0 {
        (enc, Seq::empty())
    } else {
        let (e, out) = patterns_run(enc, patterns, order, nc, nmc, pev, k - 1);
        let p = order[k - 1] as int;
        let (e2, data) = converted_pattern(e, patterns[p], nc, nmc, pev);
        (e2, place_block(out, p * 256 * nc, data))
    }
}

/// Every pattern of `order[..k]` exists and can be converted from the state it is reached in.
pub open spec fn patterns_run_defined(enc: ModEncoderModel, patterns: Seq<PatternData>, order: Seq<u8>, nc: int, nmc: int, pev: int, k: int) -> bool
    decreases k,
{
    k <= 0 || {
        &&& patterns_run_defined(enc, patterns, order, nc, nmc, pev, k - 1)
        &&& order[k - 1] < patterns.len()
        &&& pattern_convertible(patterns_run(enc, patterns, order, nc, nmc, pev, k - 1).0, patterns[order[k - 1] as int], nc, nmc, pev)
    }
}

/// Every set cell among those converting `pattern` reads (its first 64 rows) has a
/// sample-offset command that fits the lengths `infos`, if it has one (see [`mod_offset_fits`]).
pub open spec fn pattern_offsets_fit(pattern: PatternData, nc: int, infos: Seq<ModInstrumentInfo>) -> bool {
    forall|i: int| 0 <= i < pattern_cells(pattern, nc) && i < pattern.tracks_line_data@.len()
        && pattern.tracks_line_data@[i].is_set ==> #[trigger] mod_offset_fits(pattern.tracks_line_data@[i], infos)
}

/// Entry `k` of the conversion order names a pattern the song has, whose sample-offset commands
/// fit the sample lengths of `enc` (or `enc` writes raw offsets).
pub open spec fn order_entry_ok(enc: ModEncoderModel, patterns: Seq<PatternData>, order: Seq<u8>, nc: int, k: int) -> bool {
    &&& order[k] < patterns.len()
    &&& enc.sample_offset_compatibility_mode || pattern_offsets_fit(patterns[order[k] as int], nc, enc.instruments)
}

/// Every entry of the conversion order is fine (see [`order_entry_ok`]).
pub open spec fn order_ok(enc: ModEncoderModel, patterns: Seq<PatternData>, order: Seq<u8>, nc: int) -> bool {
    forall|k: int| 0 <= k < order.len() ==> #[trigger] order_entry_ok(enc, patterns, order, nc, k)
}

/// `e` is the error of the first entry of the conversion order that is not fine: a missing
/// pattern, else a sample-offset command that overflows.
pub open spec fn order_failure(enc: ModEncoderModel, patterns: Seq<PatternData>, order: Seq<u8>, nc: int, e: Error) -> bool {
    exists|k: int| 0 <= k < order.len() && !#[trigger] order_entry_ok(enc, patterns, order, nc, k)
        && (forall|j: int| 0 <= j < k ==> order_entry_ok(enc, patterns, order, nc, j))
        && e == (if order[k] >= patterns.len() { Error::Conversion(ConversionError::MissingPattern(order[k] as usize)) }
            else { Error::Conversion(ConversionError::SampleOffsetOverflow) })
}

/// Each pattern of `order` that exists, and whose sample-offset commands fit, can be converted
/// from the state the patterns before it leave.
pub open spec fn patterns_convertible(enc: ModEncoderModel, patterns: Seq<PatternData>, order: Seq<u8>, nc: int, nmc: int, pev: int) -> bool {
    forall|k: int| 0 <= k < order.len() && #[trigger] patterns_run_defined(enc, patterns, order, nc, nmc, pev, k)
        && order_entry_ok(enc, patterns, order, nc, k)
        ==> pattern_convertible(patterns_run(enc, patterns, order, nc, nmc, pev, k).0, patterns[order[k] as int], nc, nmc, pev)
}

proof fn lemma_cell_step_keeps_samples(st: PatternState, pattern: PatternData, nc: int, nmc: int, pev: int, i: int)
    ensures
        cell_step(st, pattern, nc, nmc, pev, i).0.encoder.instruments == st.encoder.instruments,
        cell_step(st, pattern, nc, nmc, pev, i).0.encoder.sample_offset_compatibility_mode == st.encoder.sample_offset_compatibility_mode,
{
    reveal(cell_step);
}

proof fn lemma_pattern_run_keeps_samples(st: PatternState, pattern: PatternData, nc: int, nmc: int, pev: int, n: int)
    ensures
        pattern_run(st, pattern, nc, nmc, pev, n).0.encoder.instruments == st.encoder.instruments,
        pattern_run(st, pattern, nc, nmc, pev, n).0.encoder.sample_offset_compatibility_mode == st.encoder.sample_offset_compatibility_mode,
    decreases n,
{
    if n > 0 {
        lemma_pattern_run_keeps_samples(st, pattern, nc, nmc, pev, n - 1);
        lemma_cell_step_keeps_samples(pattern_run(st, pattern, nc, nmc, pev, n - 1).0, pattern, nc, nmc, pev, n - 1);
    }
}

/// Converting patterns leaves the encoder's sample entries and offset mode as they were.
proof fn lemma_patterns_run_keeps_samples(enc: ModEncoderModel, patterns: Seq<PatternData>, order: Seq<u8>, nc: int, nmc: int, pev: int, k: int)
    ensures
        patterns_run(enc, patterns, order, nc, nmc, pev, k).0.instruments == enc.instruments,
        patterns_run(enc, patterns, order, nc, nmc, pev, k).0.sample_offset_compatibility_mode == enc.sample_offset_compatibility_mode,
    decreases k,
{
    if k > 0 {
        lemma_patterns_run_keeps_samples(enc, patterns, order, nc, nmc, pev, k - 1);
        let e = patterns_run(enc, patterns, order, nc, nmc, pev, k - 1).0;
        let p = patterns[order[k - 1] as int];
        lemma_pattern_run_keeps_samples(initial_pattern_state(e), p, nc, nmc, pev, pattern_cells(p, nc));
    }
}

/// Whether the sample-offset commands of the cells converting `pattern` reads fit the sample
/// lengths the encoder holds (always so when it writes raw offsets).
pub fn pattern_sample_offsets_fit(pattern: &PatternData, num_channels: usize, encoder: &ModEncoder) -> (r: bool)
    requires
        65536 * num_channels <= usize::MAX,
    ensures
        r == (encoder@.sample_offset_compatibility_mode || pattern_offsets_fit(*pattern, num_channels as int, encoder@.instruments)),
{
    if encoder.sample_offset_compat() {
        return true;
    }
    let rows = if pattern.num_rows < NUM_ROWS_PER_PATTERN { pattern.num_rows } else { NUM_ROWS_PER_PATTERN };
    assert(rows * num_channels <= 64 * num_channels) by (nonlinear_arith)
        requires rows <= 64;
    let cells = rows * num_channels;
    assert(cells == pattern_cells(*pattern, num_channels as int));
    let n = if cells < pattern.tracks_line_data.len() { cells } else { pattern.tracks_line_data.len() };
    let mut i: usize = 0;
    while i < n
        invariant
            n <= pattern.tracks_line_data@.len(),
            n == min(pattern_cells(*pattern, num_channels as int), pattern.tracks_line_data@.len() as int),
            i <= n,
            !encoder@.sample_offset_compatibility_mode,
            forall|j: int| 0 <= j < i && pattern.tracks_line_data@[j].is_set
                ==> #[trigger] mod_offset_fits(pattern.tracks_line_data@[j], encoder@.instruments),
        decreases n - i,
    {
        let cell = &pattern.tracks_line_data[i];
        if cell.is_set && !cell_offset_fits(cell, encoder) {
            return false;
        }
        i += 1;
    }
    true
}

/// Converts every pattern the 128-byte sequence names, each once, in order of first use, and
/// lays each out at its index times the pattern size. Reaching a named pattern that does not
/// exist, or one whose sample-offset commands overflow for the sample lengths the encoder holds,
/// is an error (see [`order_failure`]).
pub fn get_all_patterns_data<L: ConversionLog>(
    patterns: &[PatternData],
    num_channels: usize,
    num_master_track_columns: usize,
    pattern_sequence_buffer: &[u8; 128],
    playback_engine_version: i32,
    encoder: &mut ModEncoder,
    log: &mut L,
) -> (r: Result<Vec<u8>, Error>)
    requires
        65536 * num_channels <= usize::MAX,
        patterns_convertible(old(encoder)@, patterns@, distinct_values(pattern_sequence_buffer@), num_channels as int,
            num_master_track_columns as int, playback_engine_version as int),
    ensures
        ({
            let d = distinct_values(pattern_sequence_buffer@);
            let run = patterns_run(old(encoder)@, patterns@, d, num_channels as int, num_master_track_columns as int,
                playback_engine_version as int, d.len() as int);
            &&& r is Ok <==> order_ok(old(encoder)@, patterns@, d, num_channels as int)
            &&& r is Ok ==> (forall|k: int| 0 <= k < pattern_sequence_buffer@.len() ==> pattern_sequence_buffer@[k] < patterns@.len())
            &&& r matches Ok(out) ==> out@ == run.1 && final(encoder)@ == run.0
            &&& r matches Err(e) ==> order_failure(old(encoder)@, patterns@, d, num_channels as int, e)
        }),
{
    let distinct = distinct_pattern_indices(pattern_sequence_buffer);
    let max_pattern = max_pattern_index(&distinct);
    let ghost d = distinct@;
    let ghost nc = num_channels as int;
    let ghost nmc = num_master_track_columns as int;
    let ghost pev = playback_engine_version as int;
    let ghost enc0 = encoder@;
    proof {
        lemma_distinct_values_members(pattern_sequence_buffer@);
    }
    let mut out: Vec<u8> = Vec::new();
    let mut k: usize = 0;
    while k < distinct.len()
        invariant
            k <= d.len(),
            d == distinct@,
            d == distinct_values(pattern_sequence_buffer@),
            enc0 == old(encoder)@,
            nc == num_channels,
            nmc == num_master_track_columns,
            pev == playback_engine_version,
            65536 * num_channels <= usize::MAX,
            patterns_convertible(enc0, patterns@, d, nc, nmc, pev),
            patterns_run_defined(enc0, patterns@, d, nc, nmc, pev, k as int),
            encoder@ == patterns_run(enc0, patterns@, d, nc, nmc, pev, k as int).0,
            out@ == patterns_run(enc0, patterns@, d, nc, nmc, pev, k as int).1,
            out@.len() <= 65536 * num_channels,
            forall|j: int| 0 <= j < k ==> #[trigger] order_entry_ok(enc0, patterns@, d, nc, j),
        decreases d.len() - k,
    {
        let pattern_index = distinct[k] as usize;
        if pattern_index >= patterns.len() {
            proof {
                lemma_distinct_values_members(pattern_sequence_buffer@);
                assert(d.contains(d[k as int]));
                assert(pattern_sequence_buffer@.contains(d[k as int]));
                assert(!order_entry_ok(enc0, patterns@, d, nc, k as int));
                assert(order_failure(enc0, patterns@, d, nc, Error::Conversion(ConversionError::MissingPattern(pattern_index))));
                assert(!order_ok(enc0, patterns@, d, nc));
            }
            return Err(Error::Conversion(ConversionError::MissingPattern(pattern_index)));
        }
        proof {
            lemma_patterns_run_keeps_samples(enc0, patterns@, d, nc, nmc, pev, k as int);
        }
        if !pattern_sample_offsets_fit(&patterns[pattern_index], num_channels, encoder) {
            proof {
                assert(!order_entry_ok(enc0, patterns@, d, nc, k as int));
                assert(order_failure(enc0, patterns@, d, nc, Error::Conversion(ConversionError::SampleOffsetOverflow)));
                assert(!order_ok(enc0, patterns@, d, nc));
            }
            return Err(Error::Conversion(ConversionError::SampleOffsetOverflow));
        }
        assert(order_entry_ok(enc0, patterns@, d, nc, k as int));
        log.log(LogLevel::Info, LogMessage::ProcessingPattern { index: pattern_index, max: max_pattern as usize });
        let data = match get_pattern_data(&patterns[pattern_index], num_channels, num_master_track_columns,
            playback_engine_version, encoder, log) {
            Ok(data) => data,
            Err(e) => return Err(e),
        };
        let ghost prev_out = out@;
        proof {
            lemma_pattern_run_len(initial_pattern_state(patterns_run(enc0, patterns@, d, nc, nmc, pev, k as int).0),
                patterns@[pattern_index as int], nc, nmc, pev, pattern_cells(patterns@[pattern_index as int], nc));
            let rows = min(patterns@[pattern_index as int].num_rows as int, 64);
            assert(0 <= rows * nc <= 64 * nc) by (nonlinear_arith)
                requires 0 <= rows <= 64, nc >= 0;
            assert(data@.len() == 256 * nc);
        }
        let block = data.len();
        assert(pattern_index * block + block <= 65536 * num_channels) by (nonlinear_arith)
            requires pattern_index < 256, block == 256 * num_channels;
        assert(block * pattern_index == pattern_index * block) by (nonlinear_arith);
        let byte_offset = block * pattern_index;
        if out.len() < byte_offset + block {
            out.resize(byte_offset + block, 0u8);
        }
        let ghost grown = out@;
        let mut j: usize = 0;
        while j < block
            invariant
                j <= block,
                block == data@.len(),
                byte_offset + block <= 65536 * num_channels,
                65536 * num_channels <= usize::MAX,
                byte_offset + block <= out@.len(),
                out@.len() == grown.len(),
                forall|q: int| 0 <= q < out@.len() ==>
                    #[trigger] out@[q] == if byte_offset <= q < byte_offset + j { data@[q - byte_offset] } else { grown[q] },
            decreases block - j,
        {
            out.set(byte_offset + j, data[j]);
            j += 1;
        }
        proof {
            assert(byte_offset == pattern_index * 256 * nc) by (nonlinear_arith)
                requires byte_offset == block * pattern_index, block == 256 * nc;
            let exp = place_block(prev_out, pattern_index as int * 256 * nc, data@);
            assert(out@ =~= exp);
        }
        k += 1;
    }
    proof {
        assert forall|q: int| 0 <= q < pattern_sequence_buffer@.len() implies pattern_sequence_buffer@[q] < patterns@.len() by {
            let x = pattern_sequence_buffer@[q];
            assert(d.contains(x));
            let j = choose|j: int| 0 <= j < d.len() && d[j] == x;
            assert(order_entry_ok(enc0, patterns@, d, nc, j));
        }
    }
    Ok(out)
}

/// The pattern indices a song converts: the distinct values of its zero-padded 128-entry
/// sequence, in order of first use.
pub open spec fn song_sequence(song: SongData) -> Seq<u8> {
    distinct_values(name_bytes(song.pattern_order_table@, 128))
}

/// Every pattern the padded sequence names exists.
pub open spec fn song_patterns_exist(song: SongData) -> bool {
    forall|k: int| 0 <= k < 128 ==> #[trigger] name_bytes(song.pattern_order_table@, 128)[k] < song.patterns@.len()
}

/// Every pattern of the song's conversion order exists and its sample-offset commands fit the
/// sample lengths of `enc` (see [`order_ok`]).
pub open spec fn song_order_ok(song: SongData, enc: ModEncoderModel) -> bool {
    order_ok(enc, song.patterns@, song_sequence(song), song.num_channels as int)
}

/// `e` is the error of the first entry of the song's conversion order that is not fine (see
/// [`order_failure`]).
pub open spec fn song_order_failure(song: SongData, enc: ModEncoderModel, e: Error) -> bool {
    order_failure(enc, song.patterns@, song_sequence(song), song.num_channels as int, e)
}

/// The encoder state and the pattern area after converting a song's patterns from `enc`.
pub open spec fn song_patterns_run(song: SongData, enc: ModEncoderModel) -> (ModEncoderModel, Seq<u8>) {
    patterns_run(enc, song.patterns@, song_sequence(song), song.num_channels as int, song.num_master_track_columns as int,
        song.playback_engine_version as int, song_sequence(song).len() as int)
}

/// The song's patterns can be converted from encoder state `enc`.
pub open spec fn song_patterns_convertible(song: SongData, enc: ModEncoderModel) -> bool {
    patterns_convertible(enc, song.patterns@, song_sequence(song), song.num_channels as int,
        song.num_master_track_columns as int, song.playback_engine_version as int)
}

/// The bytes of a MOD file: title, sample headers, song length and the restart byte `0x7F`,
/// the 128-entry sequence, the format tag, the pattern area and the sample data.
pub open spec fn module_bytes(song: SongData, sample_info: Seq<u8>, sample_pcm: Seq<u8>, patterns_area: Seq<u8>) -> Seq<u8> {
    name_bytes(encode_utf8(song.name@), 20)
        + sample_info
        + seq![min(song.pattern_order_table@.len() as int, 128) as u8, 0x7Fu8]
        + name_bytes(song.pattern_order_table@, 128)
        + name_bytes(channels_tag_bytes(song.num_channels as nat), 4)
        + patterns_area
        + sample_pcm
}

/// Sizes small enough for the whole file to be addressed.
pub open spec fn module_fits(song: SongData) -> bool {
    65536 * song.num_channels + 3_000_000 <= usize::MAX
}

pub(crate) fn append_bytes(out: &mut Vec<u8>, bytes: &[u8])
    ensures
        final(out)@ == old(out)@ + bytes@,
{
    let mut i: usize = 0;
    let ghost start = out@;
    while i < bytes.len()
        invariant
            i <= bytes@.len(),
            out@ == start + bytes@.take(i as int),
        decreases bytes@.len() - i,
    {
        out.push(bytes[i]);
        proof {
            assert(bytes@.take(i + 1) =~= bytes@.take(i as int).push(bytes@[i as int]));
        }
        i += 1;
    }
    proof {
        assert(bytes@.take(i as int) =~= bytes@);
    }
}

/// Lays out a MOD file around sample headers and sample data already encoded, converting the
/// patterns with `encoder` (which holds the samples' properties).
pub fn write_module<L: ConversionLog>(
    song: &SongData,
    sample_info: &[u8],
    sample_pcm: &[u8],
    encoder: &mut ModEncoder,
    log: &mut L,
) -> (r: Result<Vec<u8>, Error>)
    requires
        sample_info@.len() == SAMPLE_INFO_BLOCK_SIZE,
        sample_pcm@.len() <= 31 * MAX_SAMPLE_LENGTH_MOD,
        module_fits(*song),
        song_patterns_convertible(*song, old(encoder)@),
    ensures
        r is Ok <==> song_order_ok(*song, old(encoder)@),
        r is Ok ==> song_patterns_exist(*song),
        r matches Ok(out) ==> {
            &&& out@ == module_bytes(*song, sample_info@, sample_pcm@, song_patterns_run(*song, old(encoder)@).1)
            &&& final(encoder)@ == song_patterns_run(*song, old(encoder)@).0
        },
        r matches Err(e) ==> song_order_failure(*song, old(encoder)@, e),
{
    let name_data = write_name_bytes(song.name.as_str(), 20);
    let order_len = song.pattern_order_table.len();
    let song_len_data = get_song_length_data(if order_len < PATTERN_SEQUENCE_SIZE { order_len } else { PATTERN_SEQUENCE_SIZE });
    let pattern_sequence = get_pattern_sequence_data(song.pattern_order_table.as_slice());
    let tag = channels_tag(song.num_channels);
    let channels_data = write_name_bytes_of(tag.as_slice(), 4);
    let patterns_data = match get_all_patterns_data(song.patterns.as_slice(), song.num_channels, song.num_master_track_columns,
        &pattern_sequence, song.playback_engine_version, encoder, log) {
        Ok(data) => data,
        Err(e) => return Err(e),
    };
    let mut out: Vec<u8> = Vec::new();
    append_bytes(&mut out, name_data.as_slice());
    append_bytes(&mut out, sample_info);
    append_bytes(&mut out, &song_len_data);
    append_bytes(&mut out, &pattern_sequence);
    append_bytes(&mut out, channels_data.as_slice());
    append_bytes(&mut out, patterns_data.as_slice());
    append_bytes(&mut out, sample_pcm);
    proof {
        assert(song_len_data@ =~= seq![min(song.pattern_order_table@.len() as int, 128) as u8, 0x7Fu8]);
        assert(out@ =~= module_bytes(*song, sample_info@, sample_pcm@, song_patterns_run(*song, old(encoder)@).1));
    }
    Ok(out)
}

/// Whether the sample-offset command of `cell` (effect `0S`), if it has one, stays within `i32`
/// arithmetic for the length stored for the sample its instrument column names.
pub open spec fn mod_offset_fits(cell: TrackLineData, infos: Seq<ModInstrumentInfo>) -> bool {
    let n = cell.effect_number@;
    let sn = cell_sample_number(cell);
    (n.len() >= 2 && n[0] == '0' && n[1] == 'S' && parse_hex_i32_spec(cell.effect_value@) is Some && 0 < sn <= infos.len())
        ==> crate::commands::sample_offset_defined(parse_hex_i32_spec(cell.effect_value@).unwrap() as int, infos[sn - 1].length as int, false)
}

fn cell_offset_fits(cell: &TrackLineData, encoder: &ModEncoder) -> (r: bool)
    ensures
        r == mod_offset_fits(*cell, encoder@.instruments),
{
    let number = cell.effect_number.as_str();
    if number.unicode_len() < 2 {
        return true;
    }
    if number.get_char(0) != '0' || number.get_char(1) != 'S' {
        return true;
    }
    let value = match parse_hex_i32(cell.effect_value.as_str()) {
        Some(v) => v,
        None => return true,
    };
    let sn: i64 = match &cell.instrument {
        Some(s) => match parse_hex_i32(s.as_str()) {
            Some(v) => v as i64 + 1,
            None => 0,
        },
        None => 0,
    };
    let count = encoder.num_instruments();
    if sn <= 0 || sn as u64 > count as u64 {
        return true;
    }
    let length = encoder.sample_length((sn - 1) as usize);
    if length <= 0 {
        return true;
    }
    assert(-0x8000_0000_0000_0000 <= (length as int) * (value as int) <= 0x7FFF_FFFF_FFFF_FFFF) by (nonlinear_arith)
        requires 0 < length <= i32::MAX, i32::MIN <= value <= i32::MAX;
    let product = length as i64 * value as i64;
    i32::MIN as i64 <= product && product <= i32::MAX as i64
}

/// The encoder entries of `n` instruments before any sample is encoded.
pub open spec fn unset_infos(n: int) -> Seq<ModInstrumentInfo> {
    Seq::new(n as nat, |i: int| ModInstrumentInfo::zero())
}

/// An encoder state the sample pass can leave for a song: fresh channels, the song's flags, six
/// ticks per row, one instrument entry per instrument, each with a bounded relative tone and
/// finetune (sample lengths are whatever the samples were).
pub open spec fn after_samples(enc: ModEncoderModel, song: SongData, settings: ModSettings) -> bool {
    &&& enc.wf()
    &&& forall|c: int| 0 <= c < 4 ==> #[trigger] enc.channels[c] == crate::mod_format::encoder::ChannelInfo::initial()
    &&& enc.settings == settings
    &&& enc.ticks_per_row == 6
    &&& enc.playback_engine_version == song.playback_engine_version
    &&& enc.pitch_compatibility_mode == song.pitch_compatibility_mode
    &&& enc.sample_offset_compatibility_mode == song.sample_offset_compatibility_mode
    &&& enc.instruments.len() == song.instruments@.len()
    &&& instrument_infos_bounded(enc.instruments)
}

/// The song's patterns convert whatever samples the sample pass encoded: from every encoder
/// state the pass can leave, each pattern of the conversion order that exists and whose
/// sample-offset commands fit can be converted.
pub open spec fn song_convertible(song: SongData, settings: ModSettings) -> bool {
    forall|enc: ModEncoderModel| #[trigger] after_samples(enc, song, settings) ==> song_patterns_convertible(song, enc)
}

/// Converts a song to a ProTracker MOD file, taking each instrument's sample data from what
/// `samples` answers for its first sample. Refuses invalid settings and fewer than four
/// channels; then, going through the patterns in order of first use in the sequence, a
/// pattern the song does not have, or one whose sample-offset commands overflow for the
/// lengths the samples came to.
pub fn convert<S: ModSampleSource, L: ConversionLog>(
    song: &SongData,
    settings: &ModSettings,
    samples: &S,
    log: &mut L,
) -> (r: Result<Vec<u8>, Error>)
    requires
        loops_ordered(*samples, *settings, song.instruments@),
        module_fits(*song),
        song_convertible(*song, *settings),
    ensures
        !settings.is_valid() && settings.volume_scaling_mode == crate::common::VolumeScalingMode::Column
            ==> r == Err::<Vec<u8>, Error>(Error::Conversion(ConversionError::InvalidVolumeScalingMode)),
        !settings.is_valid() && settings.volume_scaling_mode != crate::common::VolumeScalingMode::Column
            ==> r == Err::<Vec<u8>, Error>(Error::Conversion(ConversionError::InvalidPortamentoLossThreshold)),
        settings.is_valid() && song.num_channels < MIN_CHANNELS
            ==> r == Err::<Vec<u8>, Error>(Error::Conversion(ConversionError::TooFewChannels)),
        r is Ok ==> settings.is_valid() && song.num_channels >= MIN_CHANNELS && song_patterns_exist(*song),
        settings.is_valid() && song.num_channels >= MIN_CHANNELS
            && (forall|enc: ModEncoderModel| #[trigger] after_samples(enc, *song, *settings) ==> song_order_ok(*song, enc))
            ==> r is Ok,
        settings.is_valid() && song.num_channels >= MIN_CHANNELS ==> (r matches Err(e) ==> exists|enc: ModEncoderModel|
            #[trigger] after_samples(enc, *song, *settings) && song_order_failure(*song, enc, e)),
        r matches Ok(out) ==> exists|info: Seq<u8>, pcm: Seq<u8>, datas: Seq<Seq<u8>>, enc: ModEncoderModel|
            #![trigger after_samples(enc, *song, *settings), samples_written(info, pcm, song.instruments@, enc.instruments, datas)]
        {
            &&& after_samples(enc, *song, *settings)
            &&& song_order_ok(*song, enc)
            &&& samples_written(info, pcm, song.instruments@, enc.instruments, datas)
            &&& samples_from_source(*samples, *settings, song.instruments@, unset_infos(song.instruments@.len() as int),
                enc.instruments, datas)
            &&& out@ == module_bytes(*song, info, pcm, song_patterns_run(*song, enc).1)
        },
{
    match settings.validate() {
        Ok(()) => {},
        Err(e) => return Err(e),
    }
    match check_requirements(song) {
        Ok(()) => {},
        Err(e) => return Err(e),
    }
    let mut encoder = ModEncoder::new(song.instruments.len(), 6, settings.clone(), song.playback_engine_version,
        song.pitch_compatibility_mode, song.sample_offset_compatibility_mode);
    if song.pattern_order_table.len() > PATTERN_SEQUENCE_SIZE {
        log.log(LogLevel::Warning, LogMessage::PatternOrderTableTruncated {
            entries: song.pattern_order_table.len(),
            max: PATTERN_SEQUENCE_SIZE,
        });
    }
    let ghost enc0 = encoder@;
    let (sample_info, sample_pcm) = match get_all_samples_data(song.instruments.as_slice(), settings, samples, &mut encoder, log) {
        Ok(parts) => parts,
        Err(e) => return Err(e),
    };
    let ghost enc1 = encoder@;
    let ghost datas = choose|d: Seq<Seq<u8>>| samples_written(sample_info@, sample_pcm@, song.instruments@, enc1.instruments, d)
        && samples_from_source(*samples, *settings, song.instruments@, enc0.instruments, enc1.instruments, d);
    proof {
        assert(after_samples(enc1, *song, *settings));
        assert(enc0.instruments =~= unset_infos(song.instruments@.len() as int));
    }
    let r = write_module(song, sample_info.as_slice(), sample_pcm.as_slice(), &mut encoder, log);
    proof {
        assert(samples_written(sample_info@, sample_pcm@, song.instruments@, enc1.instruments, datas));
        assert(samples_from_source(*samples, *settings, song.instruments@, unset_infos(song.instruments@.len() as int),
            enc1.instruments, datas));
    }
    r
}

/// The block of slot `j` (of `size` bytes) of a pattern area.
pub open spec fn pattern_block(area: Seq<u8>, j: int, size: int) -> Seq<u8> {
    area.subrange(j * size, j * size + size)
}

proof fn lemma_converted_pattern_len(enc: ModEncoderModel, pattern: PatternData, nc: int, nmc: int, pev: int)
    requires
        nc >= 0,
    ensures
        converted_pattern(enc, pattern, nc, nmc, pev).1.len() == 256 * nc,
{
    let n = pattern_cells(pattern, nc);
    lemma_pattern_run_len(initial_pattern_state(enc), pattern, nc, nmc, pev, n);
    let rows = min(pattern.num_rows as int, 64);
    assert(0 <= rows * nc <= 64 * nc) by (nonlinear_arith)
        requires 0 <= rows <= 64, nc >= 0;
}

proof fn lemma_blocks_disjoint(j: int, p: int, t: int, size: int)
    requires
        0 <= j,
        0 <= p,
        j != p,
        0 <= t < size,
    ensures
        j * size + t < p * size || j * size + t >= p * size + size,
{
    if j < p {
        assert(j * size + size <= p * size) by (nonlinear_arith)
            requires j + 1 <= p, size >= 0;
    } else {
        assert(p * size + size <= j * size) by (nonlinear_arith)
            requires p + 1 <= j, size >= 0;
    }
}

proof fn lemma_block_start_bound(a: int, b: int, size: int)
    requires
        0 <= a <= b,
        size >= 0,
    ensures
        a * size <= b * size,
{
    assert(a * size <= b * size) by (nonlinear_arith)
        requires 0 <= a <= b, size >= 0;
}

proof fn lemma_seq_max_take(s: Seq<u8>, k: int)
    requires
        0 <= k < s.len(),
    ensures
        seq_max(s.take(k + 1)) == (if s[k] > seq_max(s.take(k)) { s[k] } else { seq_max(s.take(k)) }),
        forall|j: int| 0 <= j <= k ==> s[j] <= seq_max(s.take(k + 1)),
    decreases k,
{
    assert(s.take(k + 1).drop_last() =~= s.take(k));
    if k > 0 {
        lemma_seq_max_take(s, k - 1);
    }
}

/// The pattern area holds every pattern of a duplicate-free order at its index times the
/// pattern size, whatever the order the patterns were converted in; it ends after the highest
/// index, and the slots of indices the order skips are zero.
pub proof fn law_pattern_blocks(enc: ModEncoderModel, patterns: Seq<PatternData>, order: Seq<u8>, nc: int, nmc: int, pev: int, k: int)
    requires
        0 <= k <= order.len(),
        nc > 0,
        order.no_duplicates(),
    ensures
        ({
            let area = patterns_run(enc, patterns, order, nc, nmc, pev, k).1;
            let size = 256 * nc;
            &&& area.len() == (if k == 0 { 0 } else { (seq_max(order.take(k)) + 1) * size })
            &&& forall|j: int| 0 <= j < k ==> #[trigger] pattern_block(area, order[j] as int, size)
                == converted_pattern(patterns_run(enc, patterns, order, nc, nmc, pev, j).0, patterns[order[j] as int], nc, nmc, pev).1
            &&& forall|q: int| 0 <= q <= seq_max(order.take(k)) && k > 0 && !order.take(k).contains(q as u8)
                ==> #[trigger] pattern_block(area, q, size) == Seq::new(size as nat, |t: int| 0u8)
        }),
    decreases k,
{
    let size = 256 * nc;
    if k > 0 {
        law_pattern_blocks(enc, patterns, order, nc, nmc, pev, k - 1);
        let (e, out) = patterns_run(enc, patterns, order, nc, nmc, pev, k - 1);
        let p = order[k - 1] as int;
        let data = converted_pattern(e, patterns[p], nc, nmc, pev).1;
        lemma_converted_pattern_len(e, patterns[p], nc, nmc, pev);
        let area = place_block(out, p * size, data);
        assert(p * 256 * nc == p * size) by (nonlinear_arith)
            requires size == 256 * nc;
        assert(patterns_run(enc, patterns, order, nc, nmc, pev, k).1 == area);
        lemma_seq_max_take(order, k - 1);
        let m_old = seq_max(order.take(k - 1));
        let m = seq_max(order.take(k));
        if k >= 2 {
            lemma_seq_max_take(order, k - 2);
        }
        // the new length
        assert(area.len() == (m + 1) * size) by {
            assert((p + 1) * size == p * size + size) by (nonlinear_arith);
            assert((m + 1) * size == m * size + size) by (nonlinear_arith);
            if k - 1 == 0 {
                assert(order.take(1) =~= seq![order[0]]);
                assert(seq_max(seq![order[0]].drop_last()) == 0) by {
                    assert(seq![order[0]].drop_last() =~= Seq::<u8>::empty());
                }
            } else {
                lemma_block_start_bound(m_old + 1, m + 1, size);
                lemma_block_start_bound(p + 1, m + 1, size);
                assert((m_old + 1) * size == m_old * size + size) by (nonlinear_arith);
            }
        }
        // earlier patterns keep their blocks
        assert forall|j: int| 0 <= j < k implies #[trigger] pattern_block(area, order[j] as int, size)
            == converted_pattern(patterns_run(enc, patterns, order, nc, nmc, pev, j).0, patterns[order[j] as int], nc, nmc, pev).1 by {
            let q = order[j] as int;
            if j == k - 1 {
                assert(pattern_block(area, q, size) =~= data);
            } else {
                assert(order[j] != order[k - 1]);
                let prev_block = pattern_block(out, q, size);
                assert(q <= m_old);
                assert((q + 1) * size <= out.len()) by {
                    lemma_block_start_bound(q + 1, m_old + 1, size);
                }
                assert((q + 1) * size == q * size + size) by (nonlinear_arith);
                assert(0 <= q * size) by (nonlinear_arith)
                    requires 0 <= q, 0 <= size;
                assert(out.len() <= area.len());
                assert forall|t: int| 0 <= t < size implies #[trigger] pattern_block(area, q, size)[t] == prev_block[t] by {
                    let i = q * size + t;
                    lemma_blocks_disjoint(q, p, t, size);
                    assert(pattern_block(area, q, size)[t] == area[i]);
                    assert(prev_block[t] == out[i]);
                    assert(!(p * size <= i < p * size + data.len()));
                }
                assert(pattern_block(area, q, size) =~= prev_block);
            }
        }
        // skipped slots stay zero
        assert forall|q: int| 0 <= q <= m && !order.take(k).contains(q as u8)
            implies #[trigger] pattern_block(area, q, size) == Seq::new(size as nat, |t: int| 0u8) by {
            assert(q != p) by {
                assert(order.take(k)[k - 1] == order[k - 1]);
            }
            assert(!order.take(k - 1).contains(q as u8)) by {
                if order.take(k - 1).contains(q as u8) {
                    let t = order.take(k - 1);
                    let w = choose|w: int| 0 <= w < t.len() && #[trigger] t[w] == q as u8;
                    assert(order.take(k)[w] == q as u8);
                }
            }
            assert((q + 1) * size <= area.len()) by {
                lemma_block_start_bound(q + 1, m + 1, size);
            }
            assert((q + 1) * size == q * size + size) by (nonlinear_arith);
            assert(0 <= q * size) by (nonlinear_arith)
                requires 0 <= q, 0 <= size;
            assert forall|t: int| 0 <= t < size implies #[trigger] pattern_block(area, q, size)[t] == 0u8 by {
                let i = q * size + t;
                assert(pattern_block(area, q, size)[t] == area[i]);
                lemma_blocks_disjoint(q, p, t, size);
                assert(!(p * size <= i < p * size + data.len()));
                if k - 1 > 0 && q <= m_old {
                    assert(pattern_block(out, q, size) == Seq::new(size as nat, |t: int| 0u8));
                    assert((q + 1) * size <= out.len()) by {
                        lemma_block_start_bound(q + 1, m_old + 1, size);
                    }
                    assert(pattern_block(out, q, size)[t] == out[i]);
                    assert(area[i] == out[i]);
                } else {
                    assert(i >= out.len()) by {
                        if k - 1 > 0 {
                            lemma_block_start_bound(m_old + 1, q, size);
                            assert((m_old + 1) * size == m_old * size + size) by (nonlinear_arith);
                        }
                    }
                    assert(area[i] == 0u8);
                }
            }
            assert(pattern_block(area, q, size) =~= Seq::new(size as nat, |t: int| 0u8));
        }
    }
}

proof fn lemma_distinct_values_no_duplicates(s: Seq<u8>)
    ensures
        distinct_values(s).no_duplicates(),
        s.len() > 0 ==> distinct_values(s).len() > 0,
    decreases s.len(),
{
    if s.len() > 0 {
        lemma_distinct_values_no_duplicates(s.drop_last());
        let d = distinct_values(s.drop_last());
        if !d.contains(s.last()) {
            assert forall|i: int, j: int| 0 <= i < d.push(s.last()).len() && 0 <= j < d.push(s.last()).len() && i != j
                implies d.push(s.last())[i] != d.push(s.last())[j] by {
                if i == d.len() {
                    assert(d[j] != s.last());
                } else if j == d.len() {
                    assert(d[i] != s.last());
                }
            }
        }
    }
}

/// Every pattern the padded sequence names lies in the MOD pattern area at its index times
/// `256 * channels` bytes, each once, whatever the order the sequence names them in; the area
/// ends after the highest named index, and the slots of indices the sequence skips are zero.
pub proof fn law_song_pattern_area(song: SongData, enc: ModEncoderModel)
    requires
        song.num_channels > 0,
    ensures
        ({
            let d = song_sequence(song);
            let nc = song.num_channels as int;
            let size = 256 * nc;
            let area = song_patterns_run(song, enc).1;
            &&& area.len() == (seq_max(d) + 1) * size
            &&& forall|k: int| 0 <= k < d.len() ==> #[trigger] pattern_block(area, d[k] as int, size)
                == converted_pattern(patterns_run(enc, song.patterns@, d, nc, song.num_master_track_columns as int,
                    song.playback_engine_version as int, k).0, song.patterns@[d[k] as int], nc, song.num_master_track_columns as int,
                    song.playback_engine_version as int).1
            &&& forall|q: int| 0 <= q <= seq_max(d) && !d.contains(q as u8)
                ==> #[trigger] pattern_block(area, q, size) == Seq::new(size as nat, |t: int| 0u8)
        }),
{
    let padded = name_bytes(song.pattern_order_table@, 128);
    let d = song_sequence(song);
    lemma_distinct_values_no_duplicates(padded);
    assert(d.take(d.len() as int) =~= d);
    law_pattern_blocks(enc, song.patterns@, d, song.num_channels as int, song.num_master_track_columns as int,
        song.playback_engine_version as int, d.len() as int);
}

/// A MOD file has its title in bytes 0-19, the sample headers in bytes 20-949, the song length
/// and restart byte at 950 and 951, the sequence in bytes 952-1079, the format tag in bytes
/// 1080-1083, the pattern area from byte 1084, and the sample data after it.
pub proof fn law_module_layout(song: SongData, sample_info: Seq<u8>, sample_pcm: Seq<u8>, area: Seq<u8>)
    requires
        sample_info.len() == SAMPLE_INFO_BLOCK_SIZE,
    ensures
        ({
            let m = module_bytes(song, sample_info, sample_pcm, area);
            &&& m.len() == 1084 + area.len() as int + sample_pcm.len()
            &&& m.subrange(0, 20) == name_bytes(encode_utf8(song.name@), 20)
            &&& m.subrange(20, 950) == sample_info
            &&& m[950] == min(song.pattern_order_table@.len() as int, 128) as u8
            &&& m[951] == 0x7F
            &&& m.subrange(952, 1080) == name_bytes(song.pattern_order_table@, 128)
            &&& m.subrange(1080, 1084) == name_bytes(channels_tag_bytes(song.num_channels as nat), 4)
            &&& m.subrange(1084, 1084 + area.len() as int) == area
            &&& m.subrange(1084 + area.len() as int, m.len() as int) == sample_pcm
        }),
{
    let m = module_bytes(song, sample_info, sample_pcm, area);
    assert(m.subrange(0, 20) =~= name_bytes(encode_utf8(song.name@), 20));
    assert(m.subrange(20, 950) =~= sample_info);
    assert(m.subrange(952, 1080) =~= name_bytes(song.pattern_order_table@, 128));
    assert(m.subrange(1080, 1084) =~= name_bytes(channels_tag_bytes(song.num_channels as nat), 4));
    assert(m.subrange(1084, 1084 + area.len() as int) =~= area);
    assert(m.subrange(1084 + area.len() as int, m.len() as int) =~= sample_pcm);
}

} // verus!
