//! Song representation shared by the MOD and XM writers: a flattened copy of Renoise's sparse
//! per-line/per-column data, holding the raw Renoise strings (`"C-4"`, `"OFF"`, `"0G"`, `"ZT"`)
//! that the per-format writers interpret.
use vstd::prelude::*;

verus! {

/// One pattern-line cell of one note sub-column (a "channel" in tracker terms).
#[derive(Debug, Clone, Default)]
pub struct TrackLineData {
    pub is_set: bool,
    pub note: Option<String>,
    pub instrument: Option<String>,
    pub volume: Option<String>,
    pub panning: Option<String>,
    pub delay: Option<String>,
    /// Only the first effect column of a Renoise track is read.
    pub effect_number: String,
    pub effect_value: String,
}

#[derive(Debug, Clone, Default)]
pub struct MasterTrackLineData {
    pub effect_number: String,
    pub effect_value: String,
}

#[derive(Debug, Clone, Default)]
pub struct PatternData {
    pub num_rows: usize,
    /// Flat, indexed `row * num_channels + channel`.
    pub tracks_line_data: Vec<TrackLineData>,
    /// Flat, indexed `row * num_master_track_columns + column`.
    pub master_track_line_data: Vec<MasterTrackLineData>,
}

#[derive(Debug, Clone, Copy, PartialEq, Eq, Structural, Default)]
pub enum LoopMode {
    #[default]
    Off,
    Forward,
    PingPong,
}

/// Per-sample choice of the rate a MOD sample is resampled to.
#[derive(Debug, Clone, PartialEq, Default)]
pub enum SampleFreqMode {
    #[default]
    Low,
    High,
    Maximum,
    Original,
    /// A literal MOD note name, e.g. `"C-2"`.
    NoteName(String),
    /// An explicit sample rate in Hz.
    Hz(u32),
}


/// One sample of an instrument. Renoise's floating-point volume and panning are held as the
/// values the writers read from them: the XM header panning byte and the column volume scaling
/// table (see [`ColumnVolume`]).
#[derive(Debug, Clone, Default)]
pub struct SampleData {
    pub name: String,
    pub loop_start: u32,
    pub loop_end: u32,
    pub loop_mode: LoopMode,
    pub fine_tune: i8,
    pub transpose: i8,
    /// Base note ("related note"), 0-119 in Renoise's numbering (C-4 == 48).
    pub rel_note_number: i8,
    pub default_volume: u8,
    pub sample_freq: SampleFreqMode,
    pub sinc_interpolation_points: u8,
    /// The XM sample-header panning byte derived from Renoise's panning.
    pub header_panning: u8,
    /// What column volume scaling does with this sample's volume.
    pub column_volume: ColumnVolume,
}

/// The effect of a sample's volume factor `f` under column volume scaling: whether it differs
/// from 1, `scaled[v + 16]` is `(v as f32 * f) as i32` for `v` in `-16..=255`, and
/// `trigger_scaled` is `(64.0 * (f * default_volume / 64.0)) as i32`, the volume written when a
/// note triggers the sample.
#[derive(Debug, Clone, Default)]
pub struct ColumnVolume {
    pub needs_scaling: bool,
    pub scaled: Vec<i32>,
    pub trigger_scaled: i32,
}

/// An instrument envelope as the XM header stores it: points in XM units (x in ticks, y in
/// `0..=64`) in order of x, with a point at each enabled sustain and loop position, and those
/// positions rounded to ticks.
#[derive(Debug, Clone, Default)]
pub struct EnvelopeData {
    pub enabled: bool,
    pub points: Vec<(i32, i32)>,
    pub fade_out: u16,
    pub sustain_enabled: bool,
    pub sustain_point_x: i32,
    pub loop_enabled: bool,
    pub loop_start_x: i32,
    pub loop_end_x: i32,
}

#[derive(Debug, Clone)]
pub struct InstrumentData {
    pub name: String,
    /// Note (0..120) -> sample slot index, `None` where no note-on mapping exists.
    pub key_map: [Option<u8>; 120],
    pub volume_envelope: EnvelopeData,
    pub panning_envelope: EnvelopeData,
    pub samples: Vec<SampleData>,
}

#[derive(Debug, Clone, Default)]
pub struct SongData {
    pub name: String,
    pub restart_position: u16,
    pub num_channels: usize,
    pub num_master_track_columns: usize,
    pub initial_bpm: u32,
    pub lines_per_beat: u32,
    pub ticks_per_line: u32,
    pub sample_offset_compatibility_mode: bool,
    pub pitch_compatibility_mode: bool,
    /// Compared against 1 (the speed-based timing model) to choose the global ticks command.
    pub playback_engine_version: i32,
    pub pattern_order_table: Vec<u8>,
    pub patterns: Vec<PatternData>,
    pub instruments: Vec<InstrumentData>,
}

impl SampleData {
    /// A sample with the defaults Renoise assumes: full default volume, 2 interpolation points.
    pub fn new() -> (r: SampleData)
        ensures
            r.name@.len() == 0,
            r.loop_start == 0,
            r.loop_end == 0,
            r.loop_mode == LoopMode::Off,
            r.fine_tune == 0,
            r.transpose == 0,
            r.rel_note_number == 0,
            r.default_volume == 64,
            r.sample_freq == SampleFreqMode::Low,
            r.sinc_interpolation_points == 2,
            r.header_panning == 0,
            !r.column_volume.needs_scaling,
            r.column_volume.scaled@.len() == 0,
            r.column_volume.trigger_scaled == 0,
    {
        SampleData {
            name: String::new(),
            loop_start: 0,
            loop_end: 0,
            loop_mode: LoopMode::Off,
            fine_tune: 0,
            transpose: 0,
            rel_note_number: 0,
            default_volume: 64,
            sample_freq: SampleFreqMode::Low,
            sinc_interpolation_points: 2,
            header_panning: 0,
            column_volume: ColumnVolume { needs_scaling: false, scaled: Vec::new(), trigger_scaled: 0 },
        }
    }
}

impl Default for InstrumentData {
    /// An unnamed instrument with no samples and an empty key map.
    fn default() -> (r: InstrumentData)
        ensures
            r.name@.len() == 0,
            forall|i: int| 0 <= i < 120 ==> r.key_map@[i] is None,
            r.samples@.len() == 0,
            r.volume_envelope.is_empty(),
            r.panning_envelope.is_empty(),
    {
        InstrumentData {
            name: String::new(),
            key_map: [None; 120],
            volume_envelope: EnvelopeData::new(),
            panning_envelope: EnvelopeData::new(),
            samples: Vec::new(),
        }
    }
}

impl EnvelopeData {
    /// A disabled envelope with no points and all positions zero.
    pub open spec fn is_empty(self) -> bool {
        &&& !self.enabled
        &&& self.points@.len() == 0
        &&& self.fade_out == 0
        &&& !self.sustain_enabled
        &&& self.sustain_point_x == 0
        &&& !self.loop_enabled
        &&& self.loop_start_x == 0
        &&& self.loop_end_x == 0
    }

    /// A disabled envelope with no points.
    pub fn new() -> (r: EnvelopeData)
        ensures
            r.is_empty(),
    {
        EnvelopeData {
            enabled: false,
            points: Vec::new(),
            fade_out: 0,
            sustain_enabled: false,
            sustain_point_x: 0,
            loop_enabled: false,
            loop_start_x: 0,
            loop_end_x: 0,
        }
    }
}

impl PatternData {
    pub open spec fn track_index(row: int, channel: int, num_channels: int) -> int {
        row * num_channels + channel
    }

    /// The cell of `channel` on `row`.
    pub fn track_line(&self, row: usize, channel: usize, num_channels: usize) -> (r: &TrackLineData)
        requires
            row * num_channels + channel < self.tracks_line_data@.len(),
        ensures
            *r == self.tracks_line_data@[row * num_channels + channel],
    {
        let _len = self.tracks_line_data.len();
        assert(row * num_channels >= 0) by (nonlinear_arith);
        &self.tracks_line_data[row * num_channels + channel]
    }

    /// The master-track cell of column `col` on `row`.
    pub fn master_line(&self, row: usize, col: usize, num_cols: usize) -> (r: &MasterTrackLineData)
        requires
            row * num_cols + col < self.master_track_line_data@.len(),
        ensures
            *r == self.master_track_line_data@[row * num_cols + col],
    {
        let _len = self.master_track_line_data.len();
        assert(row * num_cols >= 0) by (nonlinear_arith);
        &self.master_track_line_data[row * num_cols + col]
    }
}

} // verus!
