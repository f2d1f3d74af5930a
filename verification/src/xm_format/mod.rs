//! XM (FastTracker II) output writer.
use vstd::prelude::*;
use vstd::string::*;
use vstd::utf8::encode_utf8;

pub mod commands;
pub mod encoder;
pub mod extras;
pub mod pattern;

use crate::common::VolumeScalingMode;
use crate::error::{ConversionError, Error};
use crate::mod_format::{append_bytes, name_bytes, write_name_bytes, write_name_bytes_of};
use crate::model::{EnvelopeData, InstrumentData, SampleData, SongData};
use crate::common::sample_properties_spec;
use crate::xm_format::encoder::{XmEncoder, XmEncoderModel, XmInstrumentModel, XmSampleInfo};
use crate::xm_format::pattern::{get_pattern_data, initial_xm_state, xm_offsets_fit, xm_pattern_convertible, xm_pattern_run, xm_sample_offsets_fit};
use crate::xm_format::encoder::{
    get_point_number, get_sample_loop_mode, get_sample_loop_value, get_volume_panning_type, loop_mode_byte,
    point_number, sample_loop_value, volume_panning_type,
};

pub use crate::mod_format::{ConversionLog, LogLevel, LogMessage};

verus! {

pub const MAX_ENV_POINTS: usize = 12;
pub const INSTRUMENT_HEADER_SIZE: usize = 0x107;
pub const SAMPLE_HEADER_SIZE: usize = 40;
/// Master-track columns read per row.
pub const MAX_MASTER_TRACK_COLUMNS_TO_PARSE: usize = 1;

#[derive(Debug, Clone)]
pub struct XmSettings {
    pub ticks_row: i32,
    pub tempo: i32,
    pub volume_scaling_mode: VolumeScalingMode,
}

/// Encoded PCM of one sample for an XM sample slot. XM keeps the source's rate and channel
/// count; only the bit depth is brought to 8 or 16.
pub struct EncodedXmSample {
    pub encoded_pcm: Vec<u8>,
    pub sample_rate: u32,
    /// `round(1536 * log2(sample_rate / c2_frequency))` against the NTSC C-2 frequency.
    pub pitch_units: i32,
    pub channels: u32,
    pub bits_per_sample: u32,
}

/// Supplies the encoded PCM of each sample.
pub trait XmSampleSource {
    /// Whether `r` is an answer this source gives for sample `sample` (0-based `sample_index`)
    /// of 0-based instrument `instrument_index` under `settings` (by default, any answer).
    open spec fn encodes(&self, instrument_index: usize, sample_index: usize, sample: SampleData, settings: XmSettings, r: Result<Option<EncodedXmSample>, Error>) -> bool {
        true
    }

    /// `Ok(None)` means the sample has no usable audio (silence, not an error).
    fn encode_sample(&self, instrument_index: usize, sample_index: usize, sample: &SampleData, settings: &XmSettings) -> (r: Result<Option<EncodedXmSample>, Error>)
        ensures
            self.encodes(instrument_index, sample_index, *sample, *settings, r);
}

/// Little-endian bytes of a 16-bit value.
pub open spec fn le16(v: u16) -> Seq<u8> {
    seq![(v % 256) as u8, (v / 256) as u8]
}

/// Little-endian bytes of a 32-bit value.
pub open spec fn le32(v: u32) -> Seq<u8> {
    seq![(v % 256) as u8, ((v / 256) % 256) as u8, ((v / 65536) % 256) as u8, (v / 16777216) as u8]
}

fn push_le16(out: &mut Vec<u8>, v: u16)
    ensures
        final(out)@ == old(out)@ + le16(v),
{
    out.push((v % 256) as u8);
    out.push((v / 256) as u8);
    assert(final(out)@ =~= old(out)@ + le16(v));
}

fn push_le32(out: &mut Vec<u8>, v: u32)
    ensures
        final(out)@ == old(out)@ + le32(v),
{
    out.push((v % 256) as u8);
    out.push(((v / 256) % 256) as u8);
    out.push(((v / 65536) % 256) as u8);
    out.push((v / 16777216) as u8);
    assert(final(out)@ =~= old(out)@ + le32(v));
}

fn push_zeros(out: &mut Vec<u8>, n: usize)
    ensures
        final(out)@ == old(out)@ + Seq::new(n as nat, |i: int| 0u8),
{
    let ghost start = out@;
    let mut i: usize = 0;
    while i < n
        invariant
            i <= n,
            out@ =~= start + Seq::new(i as nat, |k: int| 0u8),
        decreases n - i,
    {
        out.push(0);
        i += 1;
    }
}

/// The 336-byte XM header: ID text, song name, `0x1A`, tracker name, version 1.04, header
/// size, song length, restart position, channels, patterns, instruments, linear frequency flag,
/// default speed and tempo, and the 256-byte order table.
pub open spec fn xm_header_bytes(song: SongData, settings: XmSettings) -> Seq<u8> {
    name_bytes(encode_utf8("Extended Module: "@), 17)
        + name_bytes(encode_utf8(song.name@), 20)
        + seq![0x1Au8]
        + name_bytes(encode_utf8("Xrns2Mod"@), 20)
        + seq![4u8, 1u8]
        + le32(276)
        + le16(song.pattern_order_table@.len() as u16)
        + le16(song.restart_position)
        + le16(song.num_channels as u16)
        + le16(song.patterns@.len() as u16)
        + le16(song.instruments@.len() as u16)
        + seq![1u8, 0u8]
        + le16(settings.ticks_row as u16)
        + le16(settings.tempo as u16)
        + name_bytes(song.pattern_order_table@, 256)
}

pub fn get_xm_header_data(song: &SongData, settings: &XmSettings) -> (r: Vec<u8>)
    ensures
        r@ == xm_header_bytes(*song, *settings),
        r@.len() == 336,
{
    let mut h: Vec<u8> = Vec::new();
    let id = write_name_bytes("Extended Module: ", 17);
    append_bytes(&mut h, id.as_slice());
    let name = write_name_bytes(song.name.as_str(), 20);
    append_bytes(&mut h, name.as_slice());
    h.push(0x1A);
    let prog = write_name_bytes("Xrns2Mod", 20);
    append_bytes(&mut h, prog.as_slice());
    h.push(4);
    h.push(1);
    push_le32(&mut h, 276);
    push_le16(&mut h, song.pattern_order_table.len() as u16);
    push_le16(&mut h, song.restart_position);
    push_le16(&mut h, song.num_channels as u16);
    push_le16(&mut h, song.patterns.len() as u16);
    push_le16(&mut h, song.instruments.len() as u16);
    h.push(1);
    h.push(0);
    push_le16(&mut h, settings.ticks_row as u16);
    push_le16(&mut h, settings.tempo as u16);
    let order = write_name_bytes_of(song.pattern_order_table.as_slice(), 256);
    append_bytes(&mut h, order.as_slice());
    assert(h@ =~= xm_header_bytes(*song, *settings));
    h
}

/// The sample-type byte: loop type, `0x10` for 16-bit data, `0x20` for stereo.
pub open spec fn sample_type_byte(sample: SampleData, bits_per_sample: u8, is_stereo: bool) -> u8 {
    (loop_mode_byte(sample.loop_mode) + (if bits_per_sample == 16 { 0x10int } else { 0int }) + (if is_stereo { 0x20int } else { 0int })) as u8
}

/// The loop points of a sample in bytes fit a `u32` (they are stored as 32-bit values), and the
/// loop end does not precede its start.
pub open spec fn sample_loop_fits(sample: SampleData, bits_per_sample: int, is_stereo: bool) -> bool {
    &&& sample.loop_start <= sample.loop_end
    &&& sample_loop_value(sample.loop_start as int, bits_per_sample, is_stereo) <= u32::MAX
    &&& sample_loop_value(sample.loop_end - sample.loop_start, bits_per_sample, is_stereo) <= u32::MAX
}

/// The 40-byte XM sample header: length, loop start and length in bytes, volume, finetune,
/// type, panning, relative note, reserved byte, name.
pub open spec fn sample_header_bytes(sample: SampleData, base_note: i32, fine_tune: i32, sample_len: i32, bits_per_sample: u8, channels: u32) -> Seq<u8> {
    let is_stereo = channels > 1;
    le32(sample_len as u32)
        + le32(sample_loop_value(sample.loop_start as int, bits_per_sample as int, is_stereo) as u32)
        + le32(sample_loop_value(sample.loop_end - sample.loop_start, bits_per_sample as int, is_stereo) as u32)
        + seq![sample.default_volume, fine_tune as u8, sample_type_byte(sample, bits_per_sample, is_stereo),
            sample.header_panning, base_note as u8, 0u8]
        + name_bytes(encode_utf8(sample.name@), 22)
}

/// The type byte of an XM sample header (byte 14) says how to read the sample data: bit `0x10`
/// is set exactly when the data is 16-bit, bit `0x20` exactly when it is stereo, and its low two
/// bits are the loop type (0 none, 1 forward, 2 ping-pong).
pub proof fn law_sample_type_byte(sample: SampleData, base_note: i32, fine_tune: i32, sample_len: i32, bits_per_sample: u8, channels: u32)
    ensures
        ({
            let b = sample_header_bytes(sample, base_note, fine_tune, sample_len, bits_per_sample, channels)[14] as int;
            &&& (b / 16) % 2 == (if bits_per_sample == 16 { 1int } else { 0int })
            &&& (b / 32) % 2 == (if channels > 1 { 1int } else { 0int })
            &&& b % 4 == match sample.loop_mode { crate::model::LoopMode::Off => 0int, crate::model::LoopMode::Forward => 1int, crate::model::LoopMode::PingPong => 2int }
            &&& b < 64
        }),
{
}

pub fn get_sample_header_data(sample: &SampleData, base_note: i32, fine_tune: i32, sample_len: i32, bits_per_sample: u8, channels: u32) -> (r: Vec<u8>)
    requires
        sample_loop_fits(*sample, bits_per_sample as int, channels > 1),
    ensures
        r@ == sample_header_bytes(*sample, base_note, fine_tune, sample_len, bits_per_sample, channels),
        r@.len() == SAMPLE_HEADER_SIZE,
{
    let is_stereo = channels > 1;
    let mut h: Vec<u8> = Vec::new();
    push_le32(&mut h, sample_len as u32);
    push_le32(&mut h, get_sample_loop_value(sample.loop_start, bits_per_sample as u32, is_stereo));
    push_le32(&mut h, get_sample_loop_value(sample.loop_end - sample.loop_start, bits_per_sample as u32, is_stereo));
    h.push(sample.default_volume);
    h.push(fine_tune as u8);
    let loop_mode = get_sample_loop_mode(sample.loop_mode);
    let bit_depth_flag: u8 = if bits_per_sample == 16 { 0x10 } else { 0 };
    let stereo_flag: u8 = if is_stereo { 0x20 } else { 0 };
    h.push(loop_mode + bit_depth_flag + stereo_flag);
    h.push(sample.header_panning);
    h.push(base_note as u8);
    h.push(0);
    let name = write_name_bytes(sample.name.as_str(), 22);
    append_bytes(&mut h, name.as_slice());
    assert(h@ =~= sample_header_bytes(*sample, base_note, fine_tune, sample_len, bits_per_sample, channels));
    h
}

/// Envelope points as the header stores them: each point's x and y as 16-bit values.
pub open spec fn envelope_point_bytes(points: Seq<(i32, i32)>) -> Seq<u8>
    decreases points.len(),
{
    if points.len() == 0 {
        Seq::empty()
    } else {
        envelope_point_bytes(points.drop_last()) + le16(points.last().0 as u16) + le16(points.last().1 as u16)
    }
}

/// The 48-byte point area of an envelope: its first twelve points, zero-padded.
pub open spec fn envelope_area(points: Seq<(i32, i32)>) -> Seq<u8> {
    let n = if points.len() < 12 { points.len() as int } else { 12int };
    envelope_point_bytes(points.take(n)) + Seq::new((48 - 4 * n) as nat, |i: int| 0u8)
}

proof fn lemma_envelope_point_bytes_len(points: Seq<(i32, i32)>)
    ensures
        envelope_point_bytes(points).len() == 4 * points.len(),
    decreases points.len(),
{
    if points.len() > 0 {
        lemma_envelope_point_bytes_len(points.drop_last());
    }
}

/// Writes an envelope's first twelve points and pads the 48-byte area.
pub fn write_envelope_points(out: &mut Vec<u8>, points: &[(i32, i32)])
    ensures
        final(out)@ == old(out)@ + envelope_area(points@),
{
    let n = if points.len() < MAX_ENV_POINTS { points.len() } else { MAX_ENV_POINTS };
    let ghost start = out@;
    let mut i: usize = 0;
    while i < n
        invariant
            i <= n,
            n <= points@.len(),
            n <= 12,
            out@ == start + envelope_point_bytes(points@.take(i as int)),
        decreases n - i,
    {
        let (x, y) = points[i];
        push_le16(out, x as u16);
        push_le16(out, y as u16);
        proof {
            assert(points@.take(i + 1).drop_last() =~= points@.take(i as int));
        }
        i += 1;
    }
    proof {
        lemma_envelope_point_bytes_len(points@.take(n as int));
    }
    push_zeros(out, 48 - 4 * n);
}

/// The key map bytes: the sample slot of each of the first 96 notes, 0 where unmapped.
pub open spec fn key_map_bytes(key_map: Seq<Option<u8>>) -> Seq<u8> {
    Seq::new(96, |i: int| match key_map[i] { Some(s) => s, None => 0u8 })
}

/// The number of envelope points the header keeps (at most twelve).
pub open spec fn kept_points(points: Seq<(i32, i32)>) -> u8 {
    (if points.len() < 12 { points.len() as int } else { 12int }) as u8
}

/// The start of an XM instrument header: size, name, type, sample count, sample header size.
pub open spec fn instrument_head_bytes(instrument: InstrumentData) -> Seq<u8> {
    let num_samples = instrument.samples@.len();
    le32(263)
        + name_bytes(encode_utf8(instrument.name@), 22)
        + seq![0u8]
        + le16(num_samples as u16)
        + (if num_samples > 0 { le32(0x28) } else { le32(0) })
}

/// The envelope fields of an instrument header after the point areas: point counts, sustain
/// and loop point indices of each envelope, their types, reserved bytes, volume fadeout and
/// padding.
pub open spec fn envelope_fields_bytes(v: EnvelopeData, p: EnvelopeData) -> Seq<u8> {
    seq![
        kept_points(v.points@), kept_points(p.points@),
        point_number(v.points@, v.sustain_point_x as int), point_number(v.points@, v.loop_start_x as int),
        point_number(v.points@, v.loop_end_x as int),
        point_number(p.points@, p.sustain_point_x as int), point_number(p.points@, p.loop_start_x as int),
        point_number(p.points@, p.loop_end_x as int),
        volume_panning_type(v.enabled, v.sustain_enabled, v.loop_enabled),
        volume_panning_type(p.enabled, p.sustain_enabled, p.loop_enabled),
    ]
        + Seq::new(4, |i: int| 0u8)
        + le16(v.fade_out)
        + Seq::new(22, |i: int| 0u8)
}

/// The 263-byte XM instrument header: the head, the key map, the volume and panning point
/// areas, and the envelope fields.
pub open spec fn instrument_header_bytes(instrument: InstrumentData) -> Seq<u8> {
    instrument_head_bytes(instrument)
        + key_map_bytes(instrument.key_map@)
        + envelope_area(instrument.volume_envelope.points@)
        + envelope_area(instrument.panning_envelope.points@)
        + envelope_fields_bytes(instrument.volume_envelope, instrument.panning_envelope)
}

fn point_number_of(points: &Vec<(i32, i32)>, x: i32) -> (r: u8)
    ensures
        r == point_number(points@, x as int),
{
    let r = get_point_number(points.as_slice(), x);
    proof {
        reveal(point_number);
        if exists|i: int| 0 <= i < points@.len() && points@[i].0 == x {
            let w = choose|i: int| 0 <= i < points@.len() && points@[i].0 == x && (forall|j: int| 0 <= j < i ==> points@[j].0 != x) && r == i as u8;
            let c = choose|i: int| 0 <= i < points@.len() && points@[i].0 == x && forall|j: int| 0 <= j < i ==> points@[j].0 != x;
            if c < w {
                assert(points@[c].0 != x);
            }
            if w < c {
                assert(points@[w].0 != x);
            }
        }
    }
    r
}

fn push_instrument_head(h: &mut Vec<u8>, instrument: &InstrumentData)
    ensures
        final(h)@ == old(h)@ + instrument_head_bytes(*instrument),
{
    let ghost start = h@;
    push_le32(h, INSTRUMENT_HEADER_SIZE as u32);
    let name = write_name_bytes(instrument.name.as_str(), 22);
    append_bytes(h, name.as_slice());
    h.push(0);
    let num_samples = instrument.samples.len();
    push_le16(h, num_samples as u16);
    push_le32(h, if num_samples > 0 { 0x28 } else { 0 });
    assert(h@ =~= start + instrument_head_bytes(*instrument));
}

fn push_key_map(h: &mut Vec<u8>, key_map: &[Option<u8>; 120])
    ensures
        final(h)@ == old(h)@ + key_map_bytes(key_map@),
{
    let ghost start = h@;
    let mut i: usize = 0;
    while i < 96
        invariant
            i <= 96,
            key_map@.len() == 120,
            h@ =~= start + key_map_bytes(key_map@).take(i as int),
        decreases 96 - i,
    {
        h.push(match key_map[i] { Some(s) => s, None => 0 });
        i += 1;
    }
    assert(key_map_bytes(key_map@).take(96) =~= key_map_bytes(key_map@));
}

#[verifier::spinoff_prover]
#[verifier::rlimit(40)]
fn push_envelope_fields(h: &mut Vec<u8>, v: &EnvelopeData, p: &EnvelopeData)
    ensures
        final(h)@ == old(h)@ + envelope_fields_bytes(*v, *p),
{
    let ghost start = h@;
    let total_vol = if v.points.len() < MAX_ENV_POINTS { v.points.len() } else { MAX_ENV_POINTS };
    let total_pan = if p.points.len() < MAX_ENV_POINTS { p.points.len() } else { MAX_ENV_POINTS };
    let b0 = total_vol as u8;
    let b1 = total_pan as u8;
    let b2 = point_number_of(&v.points, v.sustain_point_x);
    let b3 = point_number_of(&v.points, v.loop_start_x);
    let b4 = point_number_of(&v.points, v.loop_end_x);
    let b5 = point_number_of(&p.points, p.sustain_point_x);
    let b6 = point_number_of(&p.points, p.loop_start_x);
    let b7 = point_number_of(&p.points, p.loop_end_x);
    let b8 = get_volume_panning_type(v.enabled, v.sustain_enabled, v.loop_enabled);
    let b9 = get_volume_panning_type(p.enabled, p.sustain_enabled, p.loop_enabled);
    h.push(b0);
    h.push(b1);
    h.push(b2);
    h.push(b3);
    h.push(b4);
    h.push(b5);
    h.push(b6);
    h.push(b7);
    h.push(b8);
    h.push(b9);
    assert(h@ =~= start + seq![b0, b1, b2, b3, b4, b5, b6, b7, b8, b9]);
    push_zeros(h, 4);
    push_le16(h, v.fade_out);
    push_zeros(h, 22);
    assert(h@ =~= start + envelope_fields_bytes(*v, *p));
}

pub fn get_instrument_header_data(instrument: &InstrumentData) -> (r: Vec<u8>)
    ensures
        r@ == instrument_header_bytes(*instrument),
        r@.len() == INSTRUMENT_HEADER_SIZE,
{
    let mut h: Vec<u8> = Vec::new();
    push_instrument_head(&mut h, instrument);
    push_key_map(&mut h, &instrument.key_map);
    write_envelope_points(&mut h, instrument.volume_envelope.points.as_slice());
    write_envelope_points(&mut h, instrument.panning_envelope.points.as_slice());
    push_envelope_fields(&mut h, &instrument.volume_envelope, &instrument.panning_envelope);
    proof {
        let v = instrument.volume_envelope.points@;
        let p = instrument.panning_envelope.points@;
        lemma_envelope_point_bytes_len(v.take(if v.len() < 12 { v.len() as int } else { 12int }));
        lemma_envelope_point_bytes_len(p.take(if p.len() < 12 { p.len() as int } else { 12int }));
    }
    assert(h@ =~= instrument_header_bytes(*instrument));
    h
}

/// What became of one sample: its encoded data, the base note and finetune written in its
/// header, and the bit depth and channel count of the data.
pub struct SampleOutcome {
    pub pcm: Vec<u8>,
    pub base_note: i32,
    pub fine_tune: i32,
    pub bits_per_sample: u8,
    pub channels: u32,
}

/// The sample headers of an instrument, one per outcome.
pub open spec fn sample_headers(samples: Seq<SampleData>, outcomes: Seq<SampleOutcome>) -> Seq<u8>
    decreases outcomes.len(),
{
    if outcomes.len() == 0 {
        Seq::empty()
    } else {
        let k = outcomes.len() - 1;
        let o = outcomes[k];
        sample_headers(samples, outcomes.drop_last())
            + sample_header_bytes(samples[k], o.base_note, o.fine_tune, o.pcm@.len() as i32, o.bits_per_sample, o.channels)
    }
}

/// The sample data of an instrument, in order.
pub open spec fn sample_pcms(outcomes: Seq<SampleOutcome>) -> Seq<u8>
    decreases outcomes.len(),
{
    if outcomes.len() == 0 { Seq::empty() } else { sample_pcms(outcomes.drop_last()) + outcomes.last().pcm@ }
}

/// An instrument in an XM file: its header, its sample headers, then its sample data.
pub open spec fn instrument_bytes(instrument: InstrumentData, outcomes: Seq<SampleOutcome>) -> Seq<u8> {
    instrument_header_bytes(instrument) + sample_headers(instrument.samples@, outcomes) + sample_pcms(outcomes)
}

/// The loop points of every sample fit the header at any bit depth, and no loop ends before
/// it starts.
pub open spec fn sample_loops_fit(instruments: Seq<InstrumentData>) -> bool {
    forall|i: int, s: int| 0 <= i < instruments.len() && 0 <= s < instruments[i].samples@.len()
        ==> #[trigger] sample_loop_fits(instruments[i].samples@[s], 255, true)
}

/// No loop of the song's samples ends before it starts.
pub open spec fn sample_loops_ordered(instruments: Seq<InstrumentData>) -> bool {
    forall|i: int, s: int| 0 <= i < instruments.len() && 0 <= s < instruments[i].samples@.len()
        ==> #[trigger] instruments[i].samples@[s].loop_start <= instruments[i].samples@[s].loop_end
}

/// The loop points of `sample` fit the header at the bit depth and channel count of outcome `o`.
pub open spec fn outcome_loop_fits(sample: SampleData, o: SampleOutcome) -> bool {
    sample_loop_fits(sample, o.bits_per_sample as int, o.channels > 1)
}

/// The loop points of each sample fit the header at the bit depth and channel count of its
/// outcome.
pub open spec fn outcome_loops_fit(samples: Seq<SampleData>, outcomes: Seq<SampleOutcome>) -> bool {
    forall|s: int| 0 <= s < outcomes.len() ==> #[trigger] outcome_loop_fits(samples[s], outcomes[s])
}

proof fn lemma_loop_fits_monotone(sample: SampleData, bits: u8, stereo: bool)
    requires
        sample_loop_fits(sample, 255, true),
    ensures
        sample_loop_fits(sample, bits as int, stereo),
{
    let a = sample.loop_start as int;
    let b = sample.loop_end - sample.loop_start;
    let c: int = if stereo { 2 } else { 1 };
    assert(a * (bits as int / 8) * c <= a * (255int / 8) * 2) by (nonlinear_arith)
        requires a >= 0, 0 <= bits <= 255, 1 <= c <= 2;
    assert(b * (bits as int / 8) * c <= b * (255int / 8) * 2) by (nonlinear_arith)
        requires b >= 0, 0 <= bits <= 255, 1 <= c <= 2;
}

/// The first sample whose loop points do not fit the header at the bit depth and channel count
/// of its outcome, if any.
fn first_loop_overflow(samples: &Vec<SampleData>, outcomes: &Vec<SampleOutcome>) -> (r: Option<usize>)
    requires
        outcomes@.len() <= samples@.len(),
        forall|s: int| 0 <= s < samples@.len() ==> #[trigger] samples@[s].loop_start <= samples@[s].loop_end,
    ensures
        r is None <==> outcome_loops_fit(samples@, outcomes@),
        r matches Some(k) ==> k < outcomes@.len()
            && !outcome_loop_fits(samples@[k as int], outcomes@[k as int])
            && forall|j: int| 0 <= j < k ==> #[trigger] outcome_loop_fits(samples@[j], outcomes@[j]),
{
    let mut k: usize = 0;
    while k < outcomes.len()
        invariant
            k <= outcomes@.len(),
            outcomes@.len() <= samples@.len(),
            forall|s: int| 0 <= s < samples@.len() ==> #[trigger] samples@[s].loop_start <= samples@[s].loop_end,
            forall|j: int| 0 <= j < k ==> #[trigger] outcome_loop_fits(samples@[j], outcomes@[j]),
        decreases outcomes@.len() - k,
    {
        let sample = &samples[k];
        let o = &outcomes[k];
        let factor: u64 = (o.bits_per_sample / 8) as u64 * if o.channels > 1 { 2 } else { 1 };
        assert(factor as int == (o.bits_per_sample as int / 8) * (if o.channels > 1 { 2int } else { 1int }));
        let start = sample.loop_start as u64;
        let length = (sample.loop_end - sample.loop_start) as u64;
        assert(start * factor <= 0xFFFF_FFFF * 62) by (nonlinear_arith)
            requires start <= 0xFFFF_FFFF, factor <= 62;
        assert(length * factor <= 0xFFFF_FFFF * 62) by (nonlinear_arith)
            requires length <= 0xFFFF_FFFF, factor <= 62;
        let fits = start * factor <= 0xFFFF_FFFF && length * factor <= 0xFFFF_FFFF;
        assert((start as int) * (factor as int) == sample_loop_value(sample.loop_start as int, o.bits_per_sample as int, o.channels > 1)) by (nonlinear_arith)
            requires factor as int == (o.bits_per_sample as int / 8) * (if o.channels > 1 { 2int } else { 1int }), start == sample.loop_start;
        assert((length as int) * (factor as int) == sample_loop_value(sample.loop_end - sample.loop_start, o.bits_per_sample as int, o.channels > 1)) by (nonlinear_arith)
            requires factor as int == (o.bits_per_sample as int / 8) * (if o.channels > 1 { 2int } else { 1int }),
                length == sample.loop_end - sample.loop_start;
        if !fits {
            assert(!outcome_loop_fits(samples@[k as int], outcomes@[k as int]));
            return Some(k);
        }
        k += 1;
    }
    None
}

/// Writes an instrument: its header, a header for each sample from its outcome, then the sample
/// data.
pub fn write_instrument_data(out: &mut Vec<u8>, instrument: &InstrumentData, outcomes: &Vec<SampleOutcome>)
    requires
        outcomes@.len() <= instrument.samples@.len(),
        outcome_loops_fit(instrument.samples@, outcomes@),
    ensures
        final(out)@ == old(out)@ + instrument_bytes(*instrument, outcomes@),
{
    let ghost start = out@;
    let header = get_instrument_header_data(instrument);
    append_bytes(out, header.as_slice());
    let ghost after_header = out@;
    let mut k: usize = 0;
    while k < outcomes.len()
        invariant
            k <= outcomes@.len(),
            outcomes@.len() <= instrument.samples@.len(),
            outcome_loops_fit(instrument.samples@, outcomes@),
            out@ == after_header + sample_headers(instrument.samples@, outcomes@.take(k as int)),
        decreases outcomes@.len() - k,
    {
        let o = &outcomes[k];
        proof {
            assert(outcomes@.take(k + 1).drop_last() =~= outcomes@.take(k as int));
        }
        assert(outcome_loop_fits(instrument.samples@[k as int], outcomes@[k as int]));
        let h = get_sample_header_data(&instrument.samples[k], o.base_note, o.fine_tune, o.pcm.len() as i32, o.bits_per_sample, o.channels);
        append_bytes(out, h.as_slice());
        k += 1;
    }
    assert(outcomes@.take(k as int) =~= outcomes@);
    let ghost after_headers = out@;
    let mut j: usize = 0;
    while j < outcomes.len()
        invariant
            j <= outcomes@.len(),
            out@ == after_headers + sample_pcms(outcomes@.take(j as int)),
        decreases outcomes@.len() - j,
    {
        proof {
            assert(outcomes@.take(j + 1).drop_last() =~= outcomes@.take(j as int));
        }
        append_bytes(out, outcomes[j].pcm.as_slice());
        j += 1;
    }
    assert(outcomes@.take(j as int) =~= outcomes@);
    assert(out@ =~= start + instrument_bytes(*instrument, outcomes@));
}

/// Every sample's base note and finetune lie within +-1000, as the base-note split leaves them.
pub open spec fn xm_infos_bounded(instruments: Seq<XmInstrumentModel>) -> bool {
    forall|i: int, s: int| 0 <= i < instruments.len() && 0 <= s < instruments[i].samples.len()
        ==> -1000 <= #[trigger] instruments[i].samples[s].related_note <= 1000 && -1000 <= instruments[i].samples[s].fine_tune <= 1000
}

/// An empty 8-bit mono sample.
pub open spec fn empty_outcome(o: SampleOutcome) -> bool {
    o.pcm@.len() == 0 && o.base_note == 0 && o.fine_tune == 0 && o.bits_per_sample == 8 && o.channels == 1
}

/// What the instrument pass makes of the source's answer `answer` for sample `sample`: the
/// outcome `o` written to the file, and the sample's encoder entry going from `before` to
/// `after`. Encoded data with channels is written with its base-note split, bit depth and
/// channel count, and its properties and length in frames are stored; anything else is an
/// empty sample and leaves the entry as it was.
pub open spec fn answer_outcome(before: XmSampleInfo, after: XmSampleInfo, sample: SampleData,
    answer: Result<Option<EncodedXmSample>, Error>, o: SampleOutcome) -> bool {
    match answer {
        Ok(Some(e)) => if e.channels > 0 {
            let props = sample_properties_spec(e.pitch_units as int, sample.rel_note_number as int, sample.transpose as int, sample.fine_tune as int);
            &&& o.pcm@ == e.encoded_pcm@
            &&& o.base_note == props.relative_tone
            &&& o.fine_tune == props.fine_tune
            &&& o.bits_per_sample == e.bits_per_sample as u8
            &&& o.channels == e.channels
            &&& after == (XmSampleInfo {
                related_note: props.relative_tone,
                fine_tune: props.fine_tune,
                length: ((if e.bits_per_sample > 8 { ((e.encoded_pcm@.len() as i64) as u64) / 2 } else { (e.encoded_pcm@.len() as i64) as u64 }) / (e.channels as u64)) as i32,
            })
        } else {
            empty_outcome(o) && after == before
        },
        _ => empty_outcome(o) && after == before,
    }
}

/// Sample `si` of instrument `ci` went through the instrument pass with `source`: its outcome
/// and encoder entry are what the pass makes of an answer `source` gives for it.
pub open spec fn sample_encoded<S: XmSampleSource>(source: S, settings: XmSettings, ci: int, si: int, sample: SampleData,
    before: XmSampleInfo, after: XmSampleInfo, o: SampleOutcome) -> bool {
    exists|answer: Result<Option<EncodedXmSample>, Error>|
        #[trigger] answer_outcome(before, after, sample, answer, o) && source.encodes(ci as usize, si as usize, sample, settings, answer)
}

/// The outcome of what the sample source returned for sample `si` of instrument `ci`: encoded
/// data has its properties stored in the encoder and written in the header; no data, a
/// failure, or data reported with no channels leaves an empty 8-bit mono sample.
pub fn sample_outcome<L: ConversionLog>(
    encoder: &mut XmEncoder,
    ci: usize,
    si: usize,
    sample: &SampleData,
    encoded: Result<Option<EncodedXmSample>, Error>,
    log: &mut L,
) -> (r: SampleOutcome)
    requires
        ci < old(encoder)@.instruments.len(),
        si < old(encoder)@.instruments[ci as int].samples.len(),
    ensures
        final(encoder)@.ticks_per_row == old(encoder)@.ticks_per_row,
        final(encoder)@.playback_engine_version == old(encoder)@.playback_engine_version,
        final(encoder)@.pitch_compatibility_mode == old(encoder)@.pitch_compatibility_mode,
        final(encoder)@.sample_offset_compatibility_mode == old(encoder)@.sample_offset_compatibility_mode,
        final(encoder)@.instruments.len() == old(encoder)@.instruments.len(),
        forall|i: int| 0 <= i < old(encoder)@.instruments.len() ==> {
            &&& #[trigger] final(encoder)@.instruments[i].key_map == old(encoder)@.instruments[i].key_map
            &&& final(encoder)@.instruments[i].samples.len() == old(encoder)@.instruments[i].samples.len()
        },
        xm_infos_bounded(old(encoder)@.instruments) ==> xm_infos_bounded(final(encoder)@.instruments),
        answer_outcome(old(encoder)@.instruments[ci as int].samples[si as int], final(encoder)@.instruments[ci as int].samples[si as int],
            *sample, encoded, r),
        !(encoded matches Ok(Some(e)) && e.channels > 0) ==> final(encoder)@ == old(encoder)@,
        forall|i: int, s: int| 0 <= i < old(encoder)@.instruments.len() && 0 <= s < old(encoder)@.instruments[i].samples.len()
            && !(i == ci && s == si) ==> #[trigger] final(encoder)@.instruments[i].samples[s] == old(encoder)@.instruments[i].samples[s],
{
    match encoded {
        Ok(Some(e)) => {
            if e.channels == 0 {
                // Both counts are `usize`s, so the 1-based numbers below cannot overflow.
                let _counts = encoder.sample_count(ci);
                log.log(LogLevel::Error, LogMessage::SampleFailed(Error::Conversion(ConversionError::SampleWithoutChannels { instrument: ci + 1, sample: si + 1 })));
                return SampleOutcome { pcm: Vec::new(), base_note: 0, fine_tune: 0, bits_per_sample: 8, channels: 1 };
            }
            let len = e.encoded_pcm.len();
            encoder.store_sample_info(ci, si, len as i64, e.pitch_units, e.channels, e.bits_per_sample,
                sample.rel_note_number as i32, sample.fine_tune as i32, sample.transpose as i32);
            let base_note = encoder.sample_base_note(ci, si);
            let fine_tune = encoder.sample_fine_tune(ci, si);
            proof {
                let props = sample_properties_spec(e.pitch_units as int, sample.rel_note_number as int, sample.transpose as int, sample.fine_tune as int);
                assert(-1000 <= props.relative_tone <= 1000 && -1000 <= props.fine_tune <= 1000);
                if xm_infos_bounded(old(encoder)@.instruments) {
                    assert forall|i: int, s: int| 0 <= i < encoder@.instruments.len() && 0 <= s < encoder@.instruments[i].samples.len()
                        implies -1000 <= #[trigger] encoder@.instruments[i].samples[s].related_note <= 1000
                            && -1000 <= encoder@.instruments[i].samples[s].fine_tune <= 1000 by {
                        if i != ci || s != si {
                            assert(encoder@.instruments[i].samples[s] == old(encoder)@.instruments[i].samples[s]);
                        }
                    }
                }
            }
            SampleOutcome { pcm: e.encoded_pcm, base_note, fine_tune, bits_per_sample: e.bits_per_sample as u8, channels: e.channels }
        },
        Ok(None) => SampleOutcome { pcm: Vec::new(), base_note: 0, fine_tune: 0, bits_per_sample: 8, channels: 1 },
        Err(e) => {
            log.log(LogLevel::Error, LogMessage::SampleFailed(e));
            SampleOutcome { pcm: Vec::new(), base_note: 0, fine_tune: 0, bits_per_sample: 8, channels: 1 }
        },
    }
}

/// The first `k` instruments of an XM file, with the outcomes of their samples.
pub open spec fn instruments_bytes(instruments: Seq<InstrumentData>, outcomes: Seq<Seq<SampleOutcome>>, k: int) -> Seq<u8>
    decreases k,
{
    if k <= 0 { Seq::empty() } else { instruments_bytes(instruments, outcomes, k - 1) + instrument_bytes(instruments[k - 1], outcomes[k - 1]) }
}

/// The encoder holds one entry per instrument with one entry per sample.
pub open spec fn encoder_matches(enc: XmEncoderModel, instruments: Seq<InstrumentData>) -> bool {
    &&& enc.instruments.len() == instruments.len()
    &&& forall|i: int| 0 <= i < instruments.len() ==> #[trigger] enc.instruments[i].samples.len() == instruments[i].samples@.len()
}

/// What encoding samples keeps of the encoder: ticks, flags, key maps, sample counts, and
/// bounded base notes and finetunes.
pub open spec fn encoder_kept(old_enc: XmEncoderModel, new_enc: XmEncoderModel) -> bool {
    &&& new_enc.ticks_per_row == old_enc.ticks_per_row
    &&& new_enc.playback_engine_version == old_enc.playback_engine_version
    &&& new_enc.pitch_compatibility_mode == old_enc.pitch_compatibility_mode
    &&& new_enc.sample_offset_compatibility_mode == old_enc.sample_offset_compatibility_mode
    &&& new_enc.instruments.len() == old_enc.instruments.len()
    &&& forall|i: int| 0 <= i < old_enc.instruments.len() ==> {
        &&& #[trigger] new_enc.instruments[i].key_map == old_enc.instruments[i].key_map
        &&& new_enc.instruments[i].samples.len() == old_enc.instruments[i].samples.len()
    }
    &&& xm_infos_bounded(old_enc.instruments) ==> xm_infos_bounded(new_enc.instruments)
}

#[verifier::spinoff_prover]
proof fn lemma_encoder_kept_trans(a: XmEncoderModel, b: XmEncoderModel, c: XmEncoderModel)
    requires
        encoder_kept(a, b),
        encoder_kept(b, c),
    ensures
        encoder_kept(a, c),
{
    assert forall|i: int| 0 <= i < a.instruments.len() implies {
        &&& #[trigger] c.instruments[i].key_map == a.instruments[i].key_map
        &&& c.instruments[i].samples.len() == a.instruments[i].samples.len()
    } by {
        assert(b.instruments[i].key_map == a.instruments[i].key_map);
        assert(c.instruments[i].key_map == b.instruments[i].key_map);
    }
}

/// Every sample of the instruments `outcomes` covers went through the instrument pass with
/// `source`, taking its encoder entry from `before` to `after` (see [`sample_encoded`]).
pub open spec fn instruments_encoded<S: XmSampleSource>(source: S, settings: XmSettings, instruments: Seq<InstrumentData>,
    before: Seq<XmInstrumentModel>, after: Seq<XmInstrumentModel>, outcomes: Seq<Seq<SampleOutcome>>) -> bool {
    forall|i: int, s: int| 0 <= i < outcomes.len() && 0 <= s < outcomes[i].len()
        ==> #[trigger] sample_encoded(source, settings, i, s, instruments[i].samples@[s], before[i].samples[s], after[i].samples[s], outcomes[i][s])
}

proof fn lemma_instruments_encoded_step<S: XmSampleSource>(source: S, settings: XmSettings, instruments: Seq<InstrumentData>,
    start: Seq<XmInstrumentModel>, before: Seq<XmInstrumentModel>, after: Seq<XmInstrumentModel>,
    prev: Seq<Seq<SampleOutcome>>, outcomes: Seq<SampleOutcome>, ci: int)
    requires
        0 <= ci < instruments.len(),
        prev.len() == ci,
        start.len() == instruments.len(),
        before.len() == instruments.len(),
        after.len() == instruments.len(),
        forall|i: int| 0 <= i < instruments.len() ==> #[trigger] start[i].samples.len() == instruments[i].samples@.len()
            && before[i].samples.len() == instruments[i].samples@.len(),
        outcomes.len() == instruments[ci].samples@.len(),
        instruments_encoded(source, settings, instruments, start, before, prev),
        forall|i: int| 0 <= i < ci ==> (#[trigger] prev[i]).len() == instruments[i].samples@.len(),
        forall|s: int| 0 <= s < outcomes.len() ==> #[trigger] sample_encoded(source, settings, ci, s,
            instruments[ci].samples@[s], before[ci].samples[s], after[ci].samples[s], outcomes[s]),
        forall|i: int, s: int| ci <= i < instruments.len() && 0 <= s < instruments[i].samples@.len()
            ==> #[trigger] before[i].samples[s] == start[i].samples[s],
        forall|i: int, s: int| 0 <= i < before.len() && i != ci && 0 <= s < before[i].samples.len()
            ==> #[trigger] after[i].samples[s] == before[i].samples[s],
    ensures
        instruments_encoded(source, settings, instruments, start, after, prev.push(outcomes)),
        forall|i: int, s: int| ci + 1 <= i < instruments.len() && 0 <= s < instruments[i].samples@.len()
            ==> #[trigger] after[i].samples[s] == start[i].samples[s],
{
    let all = prev.push(outcomes);
    assert forall|i: int, s: int| 0 <= i < all.len() && 0 <= s < all[i].len() implies #[trigger] sample_encoded(source, settings, i, s,
        instruments[i].samples@[s], start[i].samples[s], after[i].samples[s], all[i][s]) by {
        if i < ci {
            assert(all[i] == prev[i]);
            assert(sample_encoded(source, settings, i, s, instruments[i].samples@[s], start[i].samples[s], before[i].samples[s], prev[i][s]));
            assert(start[i].samples.len() == instruments[i].samples@.len());
            assert(after[i].samples[s] == before[i].samples[s]);
        } else {
            assert(all[i] == outcomes);
            assert(before[ci].samples[s] == start[ci].samples[s]);
        }
    }
    assert forall|i: int, s: int| ci + 1 <= i < instruments.len() && 0 <= s < instruments[i].samples@.len()
        implies #[trigger] after[i].samples[s] == start[i].samples[s] by {
        assert(start[i].samples.len() == instruments[i].samples@.len());
        assert(before[i].samples.len() == instruments[i].samples@.len());
        assert(after[i].samples[s] == before[i].samples[s]);
    }
}

/// The instrument area `out` written for `instruments` from the sample outcomes `outcomes`,
/// each sample's loop fitting its header, and every outcome what the instrument pass made of an
/// answer of `source` (see [`instruments_encoded`]).
pub open spec fn instruments_written<S: XmSampleSource>(source: S, settings: XmSettings, instruments: Seq<InstrumentData>,
    before: Seq<XmInstrumentModel>, after: Seq<XmInstrumentModel>, outcomes: Seq<Seq<SampleOutcome>>, out: Seq<u8>) -> bool {
    &&& outcomes.len() == instruments.len()
    &&& forall|i: int| 0 <= i < instruments.len() ==> (#[trigger] outcomes[i]).len() == instruments[i].samples@.len()
        && outcome_loops_fit(instruments[i].samples@, outcomes[i])
    &&& out == instruments_bytes(instruments, outcomes, instruments.len() as int)
    &&& instruments_encoded(source, settings, instruments, before, after, outcomes)
}

/// [`instruments_written`] holds for some outcomes of the samples.
pub open spec fn instruments_written_from_source<S: XmSampleSource>(source: S, settings: XmSettings, instruments: Seq<InstrumentData>,
    before: Seq<XmInstrumentModel>, after: Seq<XmInstrumentModel>, out: Seq<u8>) -> bool {
    exists|outcomes: Seq<Seq<SampleOutcome>>| #[trigger] instruments_written(source, settings, instruments, before, after, outcomes, out)
}

/// Encodes the samples of instrument `ci` through `samples`.
#[verifier::spinoff_prover]
fn encode_instrument_samples<S: XmSampleSource, L: ConversionLog>(
    instruments: &[InstrumentData],
    ci: usize,
    settings: &XmSettings,
    samples: &S,
    encoder: &mut XmEncoder,
    log: &mut L,
) -> (r: Vec<SampleOutcome>)
    requires
        ci < instruments@.len(),
        old(encoder)@.instruments.len() == instruments@.len(),
        old(encoder)@.instruments[ci as int].samples.len() == instruments@[ci as int].samples@.len(),
    ensures
        r@.len() == instruments@[ci as int].samples@.len(),
        encoder_kept(old(encoder)@, final(encoder)@),
        forall|s: int| 0 <= s < r@.len() ==> #[trigger] sample_encoded(*samples, *settings, ci as int, s,
            instruments@[ci as int].samples@[s], old(encoder)@.instruments[ci as int].samples[s],
            final(encoder)@.instruments[ci as int].samples[s], r@[s]),
        forall|i: int, s: int| 0 <= i < old(encoder)@.instruments.len() && i != ci && 0 <= s < old(encoder)@.instruments[i].samples.len()
            ==> #[trigger] final(encoder)@.instruments[i].samples[s] == old(encoder)@.instruments[i].samples[s],
{
    let n_inst = instruments.len();
    let instrument = &instruments[ci];
    let mut outcomes: Vec<SampleOutcome> = Vec::new();
    let mut si: usize = 0;
    while si < instrument.samples.len()
        invariant
            n_inst == instruments@.len(),
            ci < n_inst,
            *instrument == instruments@[ci as int],
            si <= instrument.samples@.len(),
            outcomes@.len() == si,
            old(encoder)@.instruments.len() == instruments@.len(),
            encoder@.instruments[ci as int].samples.len() == instruments@[ci as int].samples@.len(),
            encoder_kept(old(encoder)@, encoder@),
            forall|s: int| 0 <= s < si ==> #[trigger] sample_encoded(*samples, *settings, ci as int, s,
                instruments@[ci as int].samples@[s], old(encoder)@.instruments[ci as int].samples[s],
                encoder@.instruments[ci as int].samples[s], outcomes@[s]),
            forall|s: int| si <= s < instruments@[ci as int].samples@.len()
                ==> #[trigger] encoder@.instruments[ci as int].samples[s] == old(encoder)@.instruments[ci as int].samples[s],
            forall|i: int, s: int| 0 <= i < old(encoder)@.instruments.len() && i != ci && 0 <= s < old(encoder)@.instruments[i].samples.len()
                ==> #[trigger] encoder@.instruments[i].samples[s] == old(encoder)@.instruments[i].samples[s],
        decreases instrument.samples@.len() - si,
    {
        log.log(LogLevel::Info, LogMessage::ProcessingInstrumentSample {
            instrument: ci + 1,
            instruments: n_inst,
            sample: si + 1,
            samples: instrument.samples.len(),
        });
        let sample = &instrument.samples[si];
        let encoded = samples.encode_sample(ci, si, sample, settings);
        let ghost answer = encoded;
        let ghost before = encoder@;
        let o = sample_outcome(encoder, ci, si, sample, encoded, log);
        proof {
            assert(encoder_kept(before, encoder@));
            lemma_encoder_kept_trans(old(encoder)@, before, encoder@);
            assert(encoder@.instruments[ci as int].key_map == before.instruments[ci as int].key_map);
            assert(before.instruments[ci as int].samples[si as int] == old(encoder)@.instruments[ci as int].samples[si as int]);
            assert(answer_outcome(old(encoder)@.instruments[ci as int].samples[si as int], encoder@.instruments[ci as int].samples[si as int],
                *sample, answer, o));
            assert(sample_encoded(*samples, *settings, ci as int, si as int, *sample, old(encoder)@.instruments[ci as int].samples[si as int],
                encoder@.instruments[ci as int].samples[si as int], o));
        }
        let ghost outcomes_before = outcomes@;
        outcomes.push(o);
        proof {
            assert forall|s: int| 0 <= s < si + 1 implies #[trigger] sample_encoded(*samples, *settings, ci as int, s,
                instruments@[ci as int].samples@[s], old(encoder)@.instruments[ci as int].samples[s],
                encoder@.instruments[ci as int].samples[s], outcomes@[s]) by {
                if s < si {
                    assert(outcomes@[s] == outcomes_before[s]);
                    assert(encoder@.instruments[ci as int].samples[s] == before.instruments[ci as int].samples[s]);
                }
            }
            assert forall|s: int| si + 1 <= s < instruments@[ci as int].samples@.len()
                implies #[trigger] encoder@.instruments[ci as int].samples[s] == old(encoder)@.instruments[ci as int].samples[s] by {
                assert(encoder@.instruments[ci as int].samples[s] == before.instruments[ci as int].samples[s]);
            }
            assert forall|i: int, s: int| 0 <= i < old(encoder)@.instruments.len() && i != ci && 0 <= s < old(encoder)@.instruments[i].samples.len()
                implies #[trigger] encoder@.instruments[i].samples[s] == old(encoder)@.instruments[i].samples[s] by {
                assert(before.instruments[i].key_map == old(encoder)@.instruments[i].key_map);
                assert(encoder@.instruments[i].samples[s] == before.instruments[i].samples[s]);
            }
        }
        si += 1;
    }
    outcomes
}

/// Writes every instrument with its samples, encoding each sample through `samples`. Samples
/// that fail are logged and written empty.
pub fn get_all_instruments_data<S: XmSampleSource, L: ConversionLog>(
    instruments: &[InstrumentData],
    settings: &XmSettings,
    samples: &S,
    encoder: &mut XmEncoder,
    log: &mut L,
) -> (r: Result<Vec<u8>, Error>)
    requires
        encoder_matches(old(encoder)@, instruments@),
        sample_loops_ordered(instruments@),
    ensures
        sample_loops_fit(instruments@) ==> r is Ok,
        r matches Err(e) ==> exists|i: int, s: int, o: SampleOutcome|
            0 <= i < instruments@.len() && 0 <= s < instruments@[i].samples@.len()
            && !#[trigger] outcome_loop_fits(instruments@[i].samples@[s], o)
            && e == Error::Conversion(ConversionError::SampleLoopOverflow { instrument: (i + 1) as usize, sample: (s + 1) as usize }),
        r matches Ok(out) ==> instruments_written_from_source(*samples, *settings, instruments@, old(encoder)@.instruments,
            final(encoder)@.instruments, out@),
        encoder_kept(old(encoder)@, final(encoder)@),
{
    let mut out: Vec<u8> = Vec::new();
    let ghost mut all: Seq<Seq<SampleOutcome>> = Seq::empty();
    let mut ci: usize = 0;
    while ci < instruments.len()
        invariant
            ci <= instruments@.len(),
            encoder_matches(old(encoder)@, instruments@),
            sample_loops_ordered(instruments@),
            all.len() == ci,
            forall|i: int| 0 <= i < ci ==> (#[trigger] all[i]).len() == instruments@[i].samples@.len()
                && outcome_loops_fit(instruments@[i].samples@, all[i]),
            out@ == instruments_bytes(instruments@, all, ci as int),
            encoder_kept(old(encoder)@, encoder@),
            instruments_encoded(*samples, *settings, instruments@, old(encoder)@.instruments, encoder@.instruments, all),
            forall|i: int, s: int| ci <= i < instruments@.len() && 0 <= s < instruments@[i].samples@.len()
                ==> #[trigger] encoder@.instruments[i].samples[s] == old(encoder)@.instruments[i].samples[s],
        decreases instruments@.len() - ci,
    {
        let ghost before_enc = encoder@;
        proof {
            assert(encoder@.instruments[ci as int].key_map == old(encoder)@.instruments[ci as int].key_map);
        }
        let outcomes = encode_instrument_samples(instruments, ci, settings, samples, encoder, log);
        proof {
            lemma_encoder_kept_trans(old(encoder)@, before_enc, encoder@);
        }
        let instrument = &instruments[ci];
        proof {
            assert forall|s: int| 0 <= s < instrument.samples@.len() implies #[trigger] instrument.samples@[s].loop_start <= instrument.samples@[s].loop_end by {
                assert(instruments@[ci as int].samples@[s].loop_start <= instruments@[ci as int].samples@[s].loop_end);
            }
        }
        match first_loop_overflow(&instrument.samples, &outcomes) {
            Some(k) => {
                // The sample count is a `usize`, so `k + 1` cannot overflow.
                let _count = outcomes.len();
                let ghost o = outcomes@[k as int];
                proof {
                    assert(!outcome_loop_fits(instruments@[ci as int].samples@[k as int], o));
                    if sample_loops_fit(instruments@) {
                        assert(sample_loop_fits(instruments@[ci as int].samples@[k as int], 255, true));
                        lemma_loop_fits_monotone(instruments@[ci as int].samples@[k as int], o.bits_per_sample, o.channels > 1);
                    }
                }
                return Err(Error::Conversion(ConversionError::SampleLoopOverflow { instrument: ci + 1, sample: k + 1 }));
            },
            None => {},
        }
        write_instrument_data(&mut out, instrument, &outcomes);
        proof {
            let prev = all;
            all = all.push(outcomes@);
            lemma_instruments_bytes_prefix(instruments@, all, prev, ci as int);
            assert forall|i: int| 0 <= i < ci + 1 implies (#[trigger] all[i]).len() == instruments@[i].samples@.len()
                && outcome_loops_fit(instruments@[i].samples@, all[i]) by {
                if i < ci {
                    assert(all[i] == prev[i]);
                }
            }
            assert forall|i: int| 0 <= i < instruments@.len() implies #[trigger] old(encoder)@.instruments[i].samples.len() == instruments@[i].samples@.len()
                && before_enc.instruments[i].samples.len() == instruments@[i].samples@.len() by {
                assert(before_enc.instruments[i].key_map == old(encoder)@.instruments[i].key_map);
            }
            lemma_instruments_encoded_step(*samples, *settings, instruments@, old(encoder)@.instruments, before_enc.instruments,
                encoder@.instruments, prev, outcomes@, ci as int);
            assert(all == prev.push(outcomes@));
        }
        ci += 1;
    }
    assert(instruments_written(*samples, *settings, instruments@, old(encoder)@.instruments, encoder@.instruments, all, out@));
    assert(instruments_written_from_source(*samples, *settings, instruments@, old(encoder)@.instruments, encoder@.instruments, out@));
    Ok(out)
}

proof fn lemma_instruments_bytes_prefix(instruments: Seq<InstrumentData>, a: Seq<Seq<SampleOutcome>>, b: Seq<Seq<SampleOutcome>>, k: int)
    requires
        forall|i: int| 0 <= i < k ==> a[i] == b[i],
    ensures
        instruments_bytes(instruments, a, k) == instruments_bytes(instruments, b, k),
    decreases k,
{
    if k > 0 {
        lemma_instruments_bytes_prefix(instruments, a, b, k - 1);
    }
}

/// Converting one XM pattern from encoder state `enc`: the state after it, and its 9-byte
/// header (header length, packing type, rows, data size) followed by its data.
pub open spec fn converted_xm_pattern(enc: XmEncoderModel, pattern: crate::model::PatternData, instruments: Seq<InstrumentData>, nc: int, nmc: int, pev: int, scaling: bool) -> (XmEncoderModel, Seq<u8>) {
    let (st, data) = xm_pattern_run(initial_xm_state(enc, nc), pattern, instruments, nc, nmc, pev, scaling, pattern.tracks_line_data@.len() as int);
    (st.encoder, seq![9u8, 0u8, 0u8, 0u8, 0u8] + le16(pattern.num_rows as u16) + le16(data.len() as u16) + data)
}

/// The encoder state and the pattern bytes after converting the first `k` patterns in turn.
pub open spec fn xm_patterns_run(enc: XmEncoderModel, patterns: Seq<crate::model::PatternData>, instruments: Seq<InstrumentData>, nc: int, nmc: int, pev: int, scaling: bool, k: int) -> (XmEncoderModel, Seq<u8>)
    decreases k,
{
    if k <= 0 {
        (enc, Seq::empty())
    } else {
        let (e, out) = xm_patterns_run(enc, patterns, instruments, nc, nmc, pev, scaling, k - 1);
        let (e2, bytes) = converted_xm_pattern(e, patterns[k - 1], instruments, nc, nmc, pev, scaling);
        (e2, out + bytes)
    }
}

/// Each pattern can be converted from the state the patterns before it leave.
pub open spec fn xm_patterns_convertible(enc: XmEncoderModel, patterns: Seq<crate::model::PatternData>, instruments: Seq<InstrumentData>, nc: int, nmc: int, pev: int, scaling: bool) -> bool {
    forall|k: int| 0 <= k < patterns.len() ==>
        xm_pattern_convertible(#[trigger] xm_patterns_run(enc, patterns, instruments, nc, nmc, pev, scaling, k).0, patterns[k], instruments, nc, nmc, pev, scaling)
}

/// Converts every pattern in order, each with its header.
pub fn get_all_patterns_data<L: ConversionLog>(
    patterns: &[crate::model::PatternData],
    instruments: &[InstrumentData],
    num_channels: usize,
    num_master_track_columns: usize,
    playback_engine_version: i32,
    settings: &XmSettings,
    encoder: &mut XmEncoder,
    log: &mut L,
) -> (r: Result<Vec<u8>, Error>)
    requires
        xm_patterns_convertible(old(encoder)@, patterns@, instruments@, num_channels as int, num_master_track_columns as int,
            playback_engine_version as int, settings.volume_scaling_mode == VolumeScalingMode::Column),
    ensures
        ({
            let run = xm_patterns_run(old(encoder)@, patterns@, instruments@, num_channels as int, num_master_track_columns as int,
                playback_engine_version as int, settings.volume_scaling_mode == VolumeScalingMode::Column, patterns@.len() as int);
            &&& r matches Ok(out) && out@ == run.1
            &&& final(encoder)@ == run.0
        }),
{
    let scaling = settings.volume_scaling_mode == VolumeScalingMode::Column;
    let ghost enc0 = encoder@;
    let mut out: Vec<u8> = Vec::new();
    let mut i: usize = 0;
    while i < patterns.len()
        invariant
            i <= patterns@.len(),
            scaling == (settings.volume_scaling_mode == VolumeScalingMode::Column),
            xm_patterns_convertible(enc0, patterns@, instruments@, num_channels as int, num_master_track_columns as int, playback_engine_version as int, scaling),
            encoder@ == xm_patterns_run(enc0, patterns@, instruments@, num_channels as int, num_master_track_columns as int, playback_engine_version as int, scaling, i as int).0,
            out@ == xm_patterns_run(enc0, patterns@, instruments@, num_channels as int, num_master_track_columns as int, playback_engine_version as int, scaling, i as int).1,
        decreases patterns@.len() - i,
    {
        log.log(LogLevel::Info, LogMessage::ProcessingPattern { index: i + 1, max: patterns.len() });
        let pattern = &patterns[i];
        let data = match get_pattern_data(pattern, instruments, num_channels, num_master_track_columns, playback_engine_version,
            scaling, encoder, log) {
            Ok(d) => d,
            Err(e) => return Err(e),
        };
        let ghost before = out@;
        out.push(9);
        out.push(0);
        out.push(0);
        out.push(0);
        out.push(0);
        push_le16(&mut out, pattern.num_rows as u16);
        push_le16(&mut out, data.len() as u16);
        append_bytes(&mut out, data.as_slice());
        assert(out@ =~= before + converted_xm_pattern(xm_patterns_run(enc0, patterns@, instruments@, num_channels as int,
            num_master_track_columns as int, playback_engine_version as int, scaling, i as int).0, patterns@[i as int], instruments@,
            num_channels as int, num_master_track_columns as int, playback_engine_version as int, scaling).1);
        i += 1;
    }
    Ok(out)
}

/// An encoder state the instrument pass can leave for a song: the settings' speed, the song's
/// flags, each instrument's key map and sample count, with bounded base notes and finetunes
/// (sample lengths are whatever the samples were).
pub open spec fn after_instruments(enc: XmEncoderModel, song: SongData, settings: XmSettings) -> bool {
    &&& enc.wf()
    &&& enc.ticks_per_row == settings.ticks_row
    &&& enc.playback_engine_version == song.playback_engine_version
    &&& enc.pitch_compatibility_mode == song.pitch_compatibility_mode
    &&& enc.sample_offset_compatibility_mode == song.sample_offset_compatibility_mode
    &&& encoder_matches(enc, song.instruments@)
    &&& forall|i: int| 0 <= i < song.instruments@.len() ==> #[trigger] enc.instruments[i].key_map == song.instruments@[i].key_map@
    &&& xm_infos_bounded(enc.instruments)
}

/// The song's patterns convert whatever samples the instrument pass encoded, as far as its
/// sample-offset commands fit their lengths.
pub open spec fn xm_song_convertible(song: SongData, settings: XmSettings) -> bool {
    forall|enc: XmEncoderModel| #[trigger] after_instruments(enc, song, settings) && xm_offsets_fit(song, enc) ==>
        xm_patterns_convertible(enc, song.patterns@, song.instruments@, song.num_channels as int,
            song.num_master_track_columns as int, song.playback_engine_version as int,
            settings.volume_scaling_mode == VolumeScalingMode::Column)
}

/// The pattern area of an XM file converted from encoder state `enc`.
pub open spec fn xm_song_patterns(song: SongData, settings: XmSettings, enc: XmEncoderModel) -> Seq<u8> {
    xm_patterns_run(enc, song.patterns@, song.instruments@, song.num_channels as int, song.num_master_track_columns as int,
        song.playback_engine_version as int, settings.volume_scaling_mode == VolumeScalingMode::Column, song.patterns@.len() as int).1
}

/// Converts a song to an XM file: header, patterns, then instruments with their samples, taking
/// each sample's data from what `samples` answers for it. Refuses sample loops that do not fit the sample header at the bit
/// depth and channel count the samples came to, and sample-offset commands that overflow for the
/// lengths the samples came to.
pub fn convert<S: XmSampleSource, L: ConversionLog>(
    song: &SongData,
    settings: &XmSettings,
    samples: &S,
    log: &mut L,
) -> (r: Result<Vec<u8>, Error>)
    requires
        sample_loops_ordered(song.instruments@),
        xm_song_convertible(*song, *settings),
    ensures
        sample_loops_fit(song.instruments@)
            && (forall|enc: XmEncoderModel| #[trigger] after_instruments(enc, *song, *settings) ==> xm_offsets_fit(*song, enc))
            ==> r is Ok,
        r matches Err(e) ==> {
            ||| e == Error::Conversion(ConversionError::SampleOffsetOverflow)
                && exists|enc: XmEncoderModel| #[trigger] after_instruments(enc, *song, *settings) && !xm_offsets_fit(*song, enc)
            ||| exists|i: int, s: int, o: SampleOutcome|
                0 <= i < song.instruments@.len() && 0 <= s < song.instruments@[i].samples@.len()
                && !#[trigger] outcome_loop_fits(song.instruments@[i].samples@[s], o)
                && e == Error::Conversion(ConversionError::SampleLoopOverflow { instrument: (i + 1) as usize, sample: (s + 1) as usize })
        },
        r matches Ok(out) ==> exists|outcomes: Seq<Seq<SampleOutcome>>, enc: XmEncoderModel|
            #![trigger after_instruments(enc, *song, *settings), instruments_bytes(song.instruments@, outcomes, song.instruments@.len() as int)]
        {
            &&& after_instruments(enc, *song, *settings)
            &&& xm_offsets_fit(*song, enc)
            &&& outcomes.len() == song.instruments@.len()
            &&& forall|i: int| 0 <= i < song.instruments@.len() ==> (#[trigger] outcomes[i]).len() == song.instruments@[i].samples@.len()
                && outcome_loops_fit(song.instruments@[i].samples@, outcomes[i])
            &&& forall|i: int, s: int| 0 <= i < outcomes.len() && 0 <= s < outcomes[i].len() ==> #[trigger] sample_encoded(*samples, *settings,
                i, s, song.instruments@[i].samples@[s], XmSampleInfo::zero(), enc.instruments[i].samples[s], outcomes[i][s])
            &&& out@ == xm_header_bytes(*song, *settings) + xm_song_patterns(*song, *settings, enc)
                + instruments_bytes(song.instruments@, outcomes, song.instruments@.len() as int)
        },
{
    let mut key_maps: Vec<[Option<u8>; 120]> = Vec::new();
    let mut sample_counts: Vec<usize> = Vec::new();
    let mut i: usize = 0;
    while i < song.instruments.len()
        invariant
            i <= song.instruments@.len(),
            key_maps@.len() == i,
            sample_counts@.len() == i,
            forall|k: int| 0 <= k < i ==> #[trigger] key_maps@[k]@ == song.instruments@[k].key_map@
                && sample_counts@[k] == song.instruments@[k].samples@.len(),
        decreases song.instruments@.len() - i,
    {
        let key_map = song.instruments[i].key_map;
        assert(key_map@ =~= song.instruments@[i as int].key_map@);
        let ghost km_before = key_maps@;
        let ghost sc_before = sample_counts@;
        key_maps.push(key_map);
        sample_counts.push(song.instruments[i].samples.len());
        proof {
            assert forall|k: int| 0 <= k < i + 1 implies #[trigger] key_maps@[k]@ == song.instruments@[k].key_map@
                && sample_counts@[k] == song.instruments@[k].samples@.len() by {
                if k < i {
                    assert(key_maps@[k] == km_before[k]);
                    assert(sample_counts@[k] == sc_before[k]);
                }
            }
        }
        i += 1;
    }
    let mut encoder = XmEncoder::new(key_maps.as_slice(), sample_counts.as_slice(), settings.ticks_row,
        song.playback_engine_version, song.pitch_compatibility_mode, song.sample_offset_compatibility_mode);
    proof {
        assert forall|i: int, s: int| 0 <= i < encoder@.instruments.len() && 0 <= s < encoder@.instruments[i].samples.len()
            implies -1000 <= #[trigger] encoder@.instruments[i].samples[s].related_note <= 1000
                && -1000 <= encoder@.instruments[i].samples[s].fine_tune <= 1000 by {
            assert(encoder@.instruments[i].key_map == key_maps@[i]@);
        }
        assert forall|i: int| 0 <= i < song.instruments@.len() implies #[trigger] encoder@.instruments[i].samples.len() == song.instruments@[i].samples@.len() by {
            assert(encoder@.instruments[i].key_map == key_maps@[i]@);
        }
    }
    log.log(LogLevel::Info, LogMessage::ProcessingXmHeader);
    let header = get_xm_header_data(song, settings);
    let ghost enc0 = encoder@;
    let instruments_data = match get_all_instruments_data(song.instruments.as_slice(), settings, samples, &mut encoder, log) {
        Ok(d) => d,
        Err(e) => return Err(e),
    };
    let ghost enc1 = encoder@;
    proof {
        assert forall|i: int| 0 <= i < song.instruments@.len() implies #[trigger] enc1.instruments[i].key_map == song.instruments@[i].key_map@ by {
            assert(enc1.instruments[i].key_map == enc0.instruments[i].key_map);
            assert(enc0.instruments[i].key_map == key_maps@[i]@);
        }
        assert forall|i: int| 0 <= i < song.instruments@.len() implies #[trigger] enc1.instruments[i].samples.len() == song.instruments@[i].samples@.len() by {
            assert(enc1.instruments[i].key_map == enc0.instruments[i].key_map);
        }
        assert forall|i: int| 0 <= i < enc1.instruments.len() implies #[trigger] enc1.instruments[i].key_map.len() == 120 by {
            assert(enc1.instruments[i].key_map == enc0.instruments[i].key_map);
            assert(enc0.instruments[i].key_map == key_maps@[i]@);
        }
        assert(after_instruments(enc1, *song, *settings));
        let outcomes = choose|o: Seq<Seq<SampleOutcome>>| instruments_written(*samples, *settings, song.instruments@, enc0.instruments,
            enc1.instruments, o, instruments_data@);
        assert forall|i: int, s: int| 0 <= i < outcomes.len() && 0 <= s < outcomes[i].len() implies #[trigger] sample_encoded(*samples,
            *settings, i, s, song.instruments@[i].samples@[s], XmSampleInfo::zero(), enc1.instruments[i].samples[s], outcomes[i][s]) by {
            assert(sample_encoded(*samples, *settings, i, s, song.instruments@[i].samples@[s], enc0.instruments[i].samples[s],
                enc1.instruments[i].samples[s], outcomes[i][s]));
            assert(enc0.instruments[i].key_map == key_maps@[i]@);
            assert(enc0.instruments[i].samples[s] == XmSampleInfo::zero());
        }
    }
    if !xm_sample_offsets_fit(song, &encoder) {
        return Err(Error::Conversion(ConversionError::SampleOffsetOverflow));
    }
    let patterns_data = match get_all_patterns_data(song.patterns.as_slice(), song.instruments.as_slice(), song.num_channels,
        song.num_master_track_columns, song.playback_engine_version, settings, &mut encoder, log) {
        Ok(d) => d,
        Err(e) => return Err(e),
    };
    let mut out: Vec<u8> = Vec::new();
    append_bytes(&mut out, header.as_slice());
    append_bytes(&mut out, patterns_data.as_slice());
    append_bytes(&mut out, instruments_data.as_slice());
    Ok(out)
}

} // verus!
