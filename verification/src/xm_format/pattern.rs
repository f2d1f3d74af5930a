//! XM pattern data: each cell converted and packed with XM's "which fields follow" byte.
use vstd::prelude::*;
use vstd::string::*;
use vstd::utf8::encode_utf8;

use crate::common::{compute_ticks_per_row_for_line, row_cells_exist, ticks_per_row_for_line, VolumeScalingMode};
use crate::error::Error;
use crate::mod_format::{ConversionLog, LogLevel, LogMessage};
use crate::model::{ColumnVolume, InstrumentData, PatternData, SampleData, TrackLineData};
use crate::text::{parse_hex_i32, parse_hex_i32_spec};
use crate::commands::sample_offset_defined;
use crate::model::SongData;
use crate::xm_format::encoder::{get_xm_note, note_splits_char, xm_note_spec, xm_note_splits_char, XmEncoder, XmEncoderModel};
use crate::xm_format::extras::{
    column_volume_wf, is_volume_set_on_effect_column, is_volume_set_on_volume_column, new_scaled_effect,
    new_scaled_volume_column, scale_volume_from_effect_command, scale_volume_from_effect_command_new,
    scale_volume_from_volume_command, scale_volume_from_volume_command_new, scaled_effect_value, scaled_volume_column,
};

verus! {

/// The converter's state between two cells of an XM pattern: the encoder, the (instrument,
/// sample) last triggered on each channel, and the current row's master-track command with
/// whether it still waits for a free effect slot.
pub struct XmPatternState {
    pub encoder: XmEncoderModel,
    pub playing: Seq<Option<(usize, usize)>>,
    pub master_command: (u8, u8),
    pub master_pending: bool,
}

/// What a cell converts to before packing.
#[derive(Debug, Clone, Copy)]
pub struct XmCellFields {
    pub note: u8,
    pub note_set: bool,
    pub instrument: u8,
    pub instrument_set: bool,
    pub volume: u8,
    pub volume_used: bool,
    pub panning_used: bool,
    pub effect: (u8, u8),
    pub effect_used: bool,
}

pub open spec fn nonzero(c: (u8, u8)) -> bool {
    c.0 as int + c.1 as int > 0
}

/// Start of a row (channel 0): the ticks per row take the row's tick command, and the row's
/// first master-track column supplies a pending command when it converts to a nonzero one.
pub open spec fn xm_row_start(st: XmPatternState, pattern: PatternData, row: int, nc: int, nmc: int, pev: int) -> XmPatternState {
    let encoder = XmEncoderModel {
        ticks_per_row: ticks_per_row_for_line(pattern, row, nc, nmc, pev, st.encoder.ticks_per_row as int) as i32,
        ..st.encoder
    };
    let index = row * nmc;
    let found = if nmc >= 1 && index < pattern.master_track_line_data@.len() {
        let cell = pattern.master_track_line_data@[index];
        if cell.effect_number@.len() > 0 {
            match encoder.master_track_command(cell.effect_number@, cell.effect_value@, false) {
                Some(cmd) => if nonzero(cmd) { Some(cmd) } else { None },
                None => None,
            }
        } else {
            None
        }
    } else {
        None
    };
    match found {
        Some(cmd) => XmPatternState { encoder, master_command: cmd, master_pending: true, ..st },
        None => XmPatternState { encoder, master_pending: false, ..st },
    }
}

/// The note field of a cell: set when the note name converts.
pub open spec fn cell_note_field(cell: TrackLineData) -> (u8, bool) {
    match cell.note {
        Some(n) => match xm_note_spec(n@) {
            Some(v) => (v, true),
            None => (0u8, false),
        },
        None => (0u8, false),
    }
}

/// The instrument field of a cell: present whenever the column is, the 1-based instrument
/// number (0 when the column is not hexadecimal).
pub open spec fn cell_instrument_field(cell: TrackLineData) -> (u8, bool) {
    match cell.instrument {
        Some(s) => (match parse_hex_i32_spec(s@) { Some(v) => (v + 1) as u8, None => 0u8 }, true),
        None => (0u8, false),
    }
}

/// The channel's playing sample after a cell: a note with an instrument selects the sample the
/// key map gives, when the song has it.
pub open spec fn next_playing(enc: XmEncoderModel, instruments: Seq<InstrumentData>, playing: Seq<Option<(usize, usize)>>, channel: int, cell: TrackLineData, note: u8, instrument: u8) -> Seq<Option<(usize, usize)>> {
    if cell.instrument is Some && note != 0 && instrument != 0 {
        let xs = enc.played_sample(note as int, instrument as int);
        let idx = instrument - 1;
        if idx < instruments.len() && instruments[idx].samples@.len() > xs {
            playing.update(channel, Some((idx as usize, xs as usize)))
        } else {
            playing
        }
    } else {
        playing
    }
}

/// The column volume table of the sample playing on a channel.
pub open spec fn playing_column(instruments: Seq<InstrumentData>, playing: Seq<Option<(usize, usize)>>, channel: int) -> Option<ColumnVolume> {
    match playing[channel] {
        Some((i, s)) => if i < instruments.len() && s < instruments[i as int].samples@.len() {
            Some(instruments[i as int].samples@[s as int].column_volume)
        } else {
            None
        },
        None => None,
    }
}

/// The effect column phase.
pub open spec fn effect_phase(enc: XmEncoderModel, cell: TrackLineData, f: XmCellFields) -> XmCellFields {
    if cell.effect_number@.len() > 0 {
        match enc.xm_effect(cell.effect_number@, cell.effect_value@, f.note as int, f.instrument as int) {
            Some(c) => if nonzero(c) { XmCellFields { effect: c, effect_used: true, ..f } } else { f },
            None => f,
        }
    } else {
        f
    }
}

/// The volume column phase: the volume column when it converts, else the effect column when
/// it is free.
pub open spec fn volume_phase(enc: XmEncoderModel, cell: TrackLineData, f: XmCellFields) -> XmCellFields {
    match cell.volume {
        Some(v) => {
            let vb = enc.volume_column_from_volume(v@);
            let f = XmCellFields { volume: vb, volume_used: vb > 0, ..f };
            if !f.volume_used && !f.effect_used {
                let c = enc.volume_to_effect(v@);
                if nonzero(c) { XmCellFields { effect: c, effect_used: true, ..f } } else { f }
            } else {
                f
            }
        },
        None => f,
    }
}

/// Column volume scaling: the note's volume-column or set-volume effect scaled, else a new
/// scaled volume for a note that triggers the sample, in the first free slot. Refusals leave
/// the fields as they were.
pub open spec fn scaling_phase(column: Option<ColumnVolume>, triggers: bool, f: XmCellFields) -> XmCellFields {
    let needs = match column { Some(c) => c.needs_scaling, None => false };
    let cv = column.unwrap();
    let (f, needs) = if needs && f.volume_used && 0x10 <= f.volume <= 0x50 {
        (match scaled_volume_column(f.volume, cv) { Ok(v) => XmCellFields { volume: v, ..f }, Err(_) => f }, false)
    } else {
        (f, needs)
    };
    let (f, needs) = if needs && f.effect_used && f.effect.0 == 0x0C {
        (match scaled_effect_value(f.effect.1, cv) { Ok(v) => XmCellFields { effect: (f.effect.0, v), ..f }, Err(_) => f }, false)
    } else {
        (f, needs)
    };
    if needs && triggers {
        let (f, needs) = if !f.volume_used {
            (match new_scaled_volume_column(cv) { Ok(v) => XmCellFields { volume: v, volume_used: true, ..f }, Err(_) => f }, false)
        } else {
            (f, needs)
        };
        if needs && !f.effect_used {
            match new_scaled_effect(cv) { Ok(c) => XmCellFields { effect: c, effect_used: true, ..f }, Err(_) => f }
        } else {
            f
        }
    } else {
        f
    }
}

/// The delay column phase: a delay takes a free effect slot.
pub open spec fn delay_phase(enc: XmEncoderModel, cell: TrackLineData, f: XmCellFields) -> XmCellFields {
    match cell.delay {
        Some(d) => if !f.effect_used {
            let c = enc.delay_to_effect(d@);
            if nonzero(c) { XmCellFields { effect: c, effect_used: true, ..f } } else { f }
        } else {
            f
        },
        None => f,
    }
}

/// The panning column phase: the volume column when it is free, else the effect column when
/// that is free.
pub open spec fn panning_phase(enc: XmEncoderModel, cell: TrackLineData, f: XmCellFields) -> XmCellFields {
    match cell.panning {
        Some(p) => {
            let f = if !f.volume_used {
                let vb = enc.volume_column_from_panning(p@);
                XmCellFields { volume: vb, panning_used: vb > 0, ..f }
            } else {
                f
            };
            if !f.panning_used && !f.effect_used {
                let c = enc.panning_to_effect(p@);
                if nonzero(c) { XmCellFields { effect: c, effect_used: true, ..f } } else { f }
            } else {
                f
            }
        },
        None => f,
    }
}

/// The packed bytes of a cell: the flag byte (left out when every field follows), then the
/// note, instrument, volume, effect number and effect value that are present.
pub open spec fn pack_xm_cell(f: XmCellFields) -> Seq<u8> {
    let vol = f.volume_used || f.panning_used;
    let compression = 0x80int + (if f.note_set { 1int } else { 0 }) + (if f.instrument_set { 2int } else { 0 })
        + (if vol { 4int } else { 0 }) + (if f.effect.0 > 0 { 8int } else { 0 }) + (if f.effect.1 > 0 { 16int } else { 0 });
    (if compression != 0x9F { seq![compression as u8] } else { Seq::empty() })
        + (if f.note_set { seq![f.note] } else { Seq::empty() })
        + (if f.instrument_set { seq![f.instrument] } else { Seq::empty() })
        + (if vol { seq![f.volume] } else { Seq::empty() })
        + (if f.effect.0 > 0 { seq![f.effect.0] } else { Seq::empty() })
        + (if f.effect.1 > 0 { seq![f.effect.1] } else { Seq::empty() })
}

/// The fields of a cell that is written, and the playing samples after it.
pub open spec fn xm_cell_fields(st: XmPatternState, instruments: Seq<InstrumentData>, cell: TrackLineData, channel: int, column_scaling: bool) -> (XmCellFields, Seq<Option<(usize, usize)>>) {
    let enc = st.encoder;
    let (note, note_set) = cell_note_field(cell);
    let (instrument, instrument_set) = cell_instrument_field(cell);
    let playing = next_playing(enc, instruments, st.playing, channel, cell, note, instrument);
    let f0 = XmCellFields {
        note, note_set, instrument, instrument_set, volume: 0, volume_used: false, panning_used: false,
        effect: (0u8, 0u8), effect_used: false,
    };
    let f1 = effect_phase(enc, cell, f0);
    let f2 = volume_phase(enc, cell, f1);
    let f3 = if column_scaling {
        scaling_phase(playing_column(instruments, playing, channel), cell.note is Some && cell.instrument is Some, f2)
    } else {
        f2
    };
    let f4 = delay_phase(enc, cell, f3);
    let f5 = panning_phase(enc, cell, f4);
    (f5, playing)
}

/// Conversion of cell `i` from state `st`: the next state and the cell's bytes.
#[verifier::opaque]
pub open spec fn xm_cell_step(st: XmPatternState, pattern: PatternData, instruments: Seq<InstrumentData>, nc: int, nmc: int, pev: int, column_scaling: bool, i: int) -> (XmPatternState, Seq<u8>) {
    let row = i / nc;
    let channel = i % nc;
    let st = if channel == 0 { xm_row_start(st, pattern, row, nc, nmc, pev) } else { st };
    let cell = pattern.tracks_line_data@[i];
    if !cell.is_set && !st.master_pending {
        (st, seq![0x80u8])
    } else {
        let (f, playing) = xm_cell_fields(st, instruments, cell, channel, column_scaling);
        let st = XmPatternState { playing, ..st };
        if st.master_pending && !f.effect_used {
            (XmPatternState { master_pending: false, ..st }, pack_xm_cell(XmCellFields { effect: st.master_command, effect_used: true, ..f }))
        } else {
            (st, pack_xm_cell(f))
        }
    }
}

/// What converting the fields of a cell needs: note names that can be sliced, instrument
/// numbers that can be incremented, key-mapped instruments the encoder knows, and in-range
/// arithmetic in each phase.
pub open spec fn xm_cell_fields_defined(st: XmPatternState, instruments: Seq<InstrumentData>, cell: TrackLineData, channel: int, column_scaling: bool) -> bool {
    let enc = st.encoder;
    let (note, note_set) = cell_note_field(cell);
    let (instrument, instrument_set) = cell_instrument_field(cell);
    let f0 = XmCellFields {
        note, note_set, instrument, instrument_set, volume: 0, volume_used: false, panning_used: false,
        effect: (0u8, 0u8), effect_used: false,
    };
    let f1 = effect_phase(enc, cell, f0);
    let f2 = volume_phase(enc, cell, f1);
    &&& (cell.note matches Some(n) ==> !xm_note_splits_char(n@))
    &&& (cell.instrument matches Some(s) ==> parse_hex_i32_spec(s@) != Some(i32::MAX))
    &&& (cell.instrument is Some && note != 0 && instrument != 0) ==> enc.played_sample_defined(note as int, instrument as int)
    &&& cell.effect_number@.len() > 0 ==> enc.xm_effect_defined(cell.effect_number@, cell.effect_value@, note as int, instrument as int)
    &&& (cell.volume matches Some(v) ==> (enc.volume_column_from_volume(v@) == 0 && !f1.effect_used ==> enc.volume_to_effect_defined(v@)))
    &&& (cell.delay matches Some(d) ==> enc.delay_to_effect_defined(d@))
}

#[verifier::opaque]
pub open spec fn xm_cell_defined(st: XmPatternState, pattern: PatternData, instruments: Seq<InstrumentData>, nc: int, nmc: int, pev: int, column_scaling: bool, i: int) -> bool {
    let row = i / nc;
    let channel = i % nc;
    &&& channel == 0 ==> row_cells_exist(pattern, row, nc, nmc, pev)
    &&& {
        let st = if channel == 0 { xm_row_start(st, pattern, row, nc, nmc, pev) } else { st };
        let cell = pattern.tracks_line_data@[i];
        (cell.is_set || st.master_pending) ==> xm_cell_fields_defined(st, instruments, cell, channel, column_scaling)
    }
}

/// The state and bytes after converting the first `n` cells of a pattern.
pub open spec fn xm_pattern_run(st: XmPatternState, pattern: PatternData, instruments: Seq<InstrumentData>, nc: int, nmc: int, pev: int, column_scaling: bool, n: int) -> (XmPatternState, Seq<u8>)
    decreases n,
{
    if n <= 0 {
        (st, seq![])
    } else {
        let (prev, bytes) = xm_pattern_run(st, pattern, instruments, nc, nmc, pev, column_scaling, n - 1);
        let (next, cell) = xm_cell_step(prev, pattern, instruments, nc, nmc, pev, column_scaling, n - 1);
        (next, bytes + cell)
    }
}

pub open spec fn xm_pattern_run_defined(st: XmPatternState, pattern: PatternData, instruments: Seq<InstrumentData>, nc: int, nmc: int, pev: int, column_scaling: bool, n: int) -> bool
    decreases n,
{
    n <= 0 || (xm_pattern_run_defined(st, pattern, instruments, nc, nmc, pev, column_scaling, n - 1)
        && xm_cell_defined(xm_pattern_run(st, pattern, instruments, nc, nmc, pev, column_scaling, n - 1).0, pattern, instruments, nc, nmc, pev, column_scaling, n - 1))
}

pub open spec fn xm_state_of(encoder: XmEncoderModel, playing: Seq<Option<(usize, usize)>>, master_command: (u8, u8), master_pending: bool) -> XmPatternState {
    XmPatternState { encoder, playing, master_command, master_pending }
}

/// Start of a row: updates the ticks per row and reads the row's master-track command.
fn xm_start_row<L: ConversionLog>(
    encoder: &mut XmEncoder,
    pattern: &PatternData,
    row: usize,
    num_channels: usize,
    num_master_track_columns: usize,
    playback_engine_version: i32,
    master_command: &mut (u8, u8),
    master_pending: &mut bool,
    log: &mut L,
)
    requires
        row_cells_exist(*pattern, row as int, num_channels as int, num_master_track_columns as int, playback_engine_version as int),
        row * num_master_track_columns <= usize::MAX,
    ensures
        forall|playing: Seq<Option<(usize, usize)>>| #[trigger] xm_state_of(final(encoder)@, playing, *final(master_command), *final(master_pending))
            == xm_row_start(xm_state_of(old(encoder)@, playing, *old(master_command), *old(master_pending)), *pattern, row as int,
                num_channels as int, num_master_track_columns as int, playback_engine_version as int),
{
    let new_ticks = compute_ticks_per_row_for_line(
        pattern,
        row,
        num_channels,
        num_master_track_columns,
        playback_engine_version,
        encoder.ticks_per_row(),
    );
    encoder.set_ticks_per_row(new_ticks);
    if *master_pending {
        log.log(LogLevel::Error, LogMessage::UnusedMasterTrackCommand { row, channel: 1 });
    }
    *master_pending = false;
    if num_master_track_columns >= 1 {
        let index = row * num_master_track_columns;
        if index < pattern.master_track_line_data.len() {
            let mt_cell = &pattern.master_track_line_data[index];
            if !mt_cell.effect_number.as_str().is_empty() {
                if let Ok(cmd) = encoder.get_commands_from_master_track(mt_cell.effect_number.as_str(), mt_cell.effect_value.as_str(), false) {
                    if cmd.0 as u32 + cmd.1 as u32 > 0 {
                        *master_command = cmd;
                        *master_pending = true;
                    }
                }
            }
        }
    }
}

fn effect_phase_exec<L: ConversionLog>(encoder: &XmEncoder, cell: &TrackLineData, f: &mut XmCellFields, row: usize, channel: usize, log: &mut L)
    requires
        channel < usize::MAX,
        cell.effect_number@.len() > 0 ==> encoder@.xm_effect_defined(cell.effect_number@, cell.effect_value@, old(f).note as int, old(f).instrument as int),
    ensures
        *final(f) == effect_phase(encoder@, *cell, *old(f)),
{
    if !cell.effect_number.as_str().is_empty() {
        match encoder.get_xm_effect(cell.effect_number.as_str(), cell.effect_value.as_str(), f.note, f.instrument) {
            Ok(c) => {
                if c.0 as u32 + c.1 as u32 > 0 {
                    f.effect = c;
                    f.effect_used = true;
                }
            },
            Err(e) => {
                log.log(LogLevel::Error, LogMessage::EffectFailed { row, channel: channel + 1, error: e });
            },
        }
    }
}

fn volume_phase_exec(encoder: &XmEncoder, cell: &TrackLineData, f: &mut XmCellFields)
    requires
        cell.volume matches Some(v) ==> (encoder@.volume_column_from_volume(v@) == 0 && !old(f).effect_used ==> encoder@.volume_to_effect_defined(v@)),
    ensures
        *final(f) == volume_phase(encoder@, *cell, *old(f)),
{
    if let Some(volume) = &cell.volume {
        f.volume = encoder.volume_column_effect_from_volume(volume.as_str());
        f.volume_used = f.volume > 0;
        if !f.volume_used && !f.effect_used {
            let c = encoder.transpose_volume_to_command_effect(volume.as_str());
            if c.0 as u32 + c.1 as u32 > 0 {
                f.effect_used = true;
                f.effect = c;
            }
        }
    }
}

fn apply_column_volume_scaling<L: ConversionLog>(column: Option<&ColumnVolume>, triggers: bool, f: &mut XmCellFields, row: usize, channel: usize, log: &mut L)
    requires
        channel < usize::MAX,
        column matches Some(c) ==> column_volume_wf(*c),
    ensures
        *final(f) == scaling_phase(match column { Some(c) => Some(*c), None => None }, triggers, *old(f)),
{
    let mut needs = match column {
        Some(c) => c.needs_scaling,
        None => false,
    };
    if needs && f.volume_used && is_volume_set_on_volume_column(f.volume) {
        match scale_volume_from_volume_command(f.volume, column.unwrap()) {
            Ok(v) => f.volume = v,
            Err(e) => log.log(LogLevel::Error, LogMessage::CellFailed { row, channel: channel + 1, error: e }),
        }
        needs = false;
    }
    if needs && f.effect_used && is_volume_set_on_effect_column(f.effect.0) {
        match scale_volume_from_effect_command(f.effect.1, column.unwrap()) {
            Ok(v) => f.effect = (f.effect.0, v),
            Err(e) => log.log(LogLevel::Error, LogMessage::CellFailed { row, channel: channel + 1, error: e }),
        }
        needs = false;
    }
    if needs && triggers {
        if !f.volume_used {
            match scale_volume_from_volume_command_new(column.unwrap()) {
                Ok(v) => {
                    f.volume = v;
                    f.volume_used = true;
                },
                Err(e) => log.log(LogLevel::Error, LogMessage::CellFailed { row, channel: channel + 1, error: e }),
            }
            needs = false;
        }
        if needs && !f.effect_used {
            match scale_volume_from_effect_command_new(column.unwrap()) {
                Ok(c) => {
                    f.effect_used = true;
                    f.effect = c;
                },
                Err(e) => log.log(LogLevel::Error, LogMessage::CellFailed { row, channel: channel + 1, error: e }),
            }
            needs = false;
        }
    }
    if needs {
        log.log(LogLevel::Error, LogMessage::ScaledVolumeWithoutSlot { row, channel: channel + 1 });
    }
}

fn delay_phase_exec<L: ConversionLog>(encoder: &XmEncoder, cell: &TrackLineData, f: &mut XmCellFields, row: usize, channel: usize, log: &mut L)
    requires
        channel < usize::MAX,
        cell.delay matches Some(d) ==> encoder@.delay_to_effect_defined(d@),
    ensures
        *final(f) == delay_phase(encoder@, *cell, *old(f)),
{
    if let Some(delay) = &cell.delay {
        if !f.effect_used {
            let c = encoder.transpose_delay_to_command_effect(delay.as_str());
            if c.0 as u32 + c.1 as u32 > 0 {
                f.effect_used = true;
                f.effect = c;
            }
        } else {
            log.log(LogLevel::Error, LogMessage::DelayWithoutSlot { row, channel: channel + 1 });
        }
    }
}

fn panning_phase_exec(encoder: &XmEncoder, cell: &TrackLineData, f: &mut XmCellFields)
    ensures
        *final(f) == panning_phase(encoder@, *cell, *old(f)),
{
    if let Some(panning) = &cell.panning {
        if !f.volume_used {
            f.volume = encoder.volume_column_effect_from_panning(panning.as_str());
            f.panning_used = f.volume > 0;
        }
        if !f.panning_used && !f.effect_used {
            let c = encoder.transpose_panning_to_command_effect(panning.as_str());
            if c.0 as u32 + c.1 as u32 > 0 {
                f.effect_used = true;
                f.effect = c;
            }
        }
    }
}

fn push_packed_cell(out: &mut Vec<u8>, f: &XmCellFields)
    ensures
        final(out)@ == old(out)@ + pack_xm_cell(*f),
{
    let ghost start = out@;
    let vol = f.volume_used || f.panning_used;
    let mut compression: u8 = 0x80;
    if f.note_set {
        compression = compression + 1;
    }
    if f.instrument_set {
        compression = compression + 2;
    }
    if vol {
        compression = compression + 4;
    }
    if f.effect.0 > 0 {
        compression = compression + 8;
    }
    if f.effect.1 > 0 {
        compression = compression + 16;
    }
    if compression != 0x9F {
        out.push(compression);
    }
    let ghost a = out@;
    if f.note_set {
        out.push(f.note);
    }
    let ghost b = out@;
    if f.instrument_set {
        out.push(f.instrument);
    }
    let ghost c = out@;
    if vol {
        out.push(f.volume);
    }
    let ghost d = out@;
    if f.effect.0 > 0 {
        out.push(f.effect.0);
    }
    let ghost e = out@;
    if f.effect.1 > 0 {
        out.push(f.effect.1);
    }
    assert(out@ =~= start + pack_xm_cell(*f));
}

/// Every sample's column volume table is complete.
pub open spec fn column_tables_wf(instruments: Seq<InstrumentData>) -> bool {
    forall|i: int, s: int| 0 <= i < instruments.len() && 0 <= s < instruments[i].samples@.len()
        ==> #[trigger] column_volume_wf(instruments[i].samples@[s].column_volume)
}

/// The fields of a cell that is written; updates the channel's playing sample.
fn xm_cell_fields_exec<L: ConversionLog>(
    encoder: &XmEncoder,
    instruments: &[InstrumentData],
    cell: &TrackLineData,
    channel: usize,
    column_scaling: bool,
    playing: &mut Vec<Option<(usize, usize)>>,
    row: usize,
    log: &mut L,
) -> (r: XmCellFields)
    requires
        channel < old(playing)@.len(),
        column_scaling ==> column_tables_wf(instruments@),
        xm_cell_fields_defined(xm_state_of(encoder@, old(playing)@, (0u8, 0u8), false), instruments@, *cell, channel as int, column_scaling),
    ensures
        ({
            let (f, p) = xm_cell_fields(xm_state_of(encoder@, old(playing)@, (0u8, 0u8), false), instruments@, *cell, channel as int, column_scaling);
            &&& r == f
            &&& final(playing)@ == p
        }),
{
    let _num_playing = playing.len();
    let mut note: u8 = 0;
    let mut note_set = false;
    if let Some(n) = &cell.note {
        match get_xm_note(n.as_str()) {
            Ok(v) => {
                note = v;
                note_set = true;
            },
            Err(e) => log.log(LogLevel::Error, LogMessage::CellFailed { row, channel: channel + 1, error: e }),
        }
    }
    let mut instrument: u8 = 0;
    let mut instrument_set = false;
    if let Some(s) = &cell.instrument {
        instrument_set = true;
        if let Some(v) = parse_hex_i32(s.as_str()) {
            assert(parse_hex_i32_spec(s@) != Some(i32::MAX));
            instrument = (v + 1) as u8;
        }
        if note != 0 && instrument != 0 {
            let xs = encoder.played_sample_from_keymap(note, instrument);
            let idx = (instrument - 1) as usize;
            if idx < instruments.len() && instruments[idx].samples.len() > xs as usize {
                playing.set(channel, Some((idx, xs as usize)));
            }
        }
    }
    let mut f = XmCellFields {
        note, note_set, instrument, instrument_set, volume: 0, volume_used: false, panning_used: false,
        effect: (0, 0), effect_used: false,
    };
    effect_phase_exec(encoder, cell, &mut f, row, channel, log);
    volume_phase_exec(encoder, cell, &mut f);
    if column_scaling {
        let column: Option<&ColumnVolume> = match playing[channel] {
            Some((i, s)) => if i < instruments.len() && s < instruments[i].samples.len() {
                Some(&instruments[i].samples[s].column_volume)
            } else {
                None
            },
            None => None,
        };
        let triggers = cell.note.is_some() && cell.instrument.is_some();
        apply_column_volume_scaling(column, triggers, &mut f, row, channel, log);
    }
    delay_phase_exec(encoder, cell, &mut f, row, channel, log);
    panning_phase_exec(encoder, cell, &mut f);
    f
}

/// Converts cell `i` of a pattern, starting its row first when it is on channel 0.
fn convert_xm_cell<L: ConversionLog>(
    encoder: &mut XmEncoder,
    pattern: &PatternData,
    instruments: &[InstrumentData],
    i: usize,
    num_channels: usize,
    num_master_track_columns: usize,
    playback_engine_version: i32,
    column_scaling: bool,
    playing: &mut Vec<Option<(usize, usize)>>,
    master_command: &mut (u8, u8),
    master_pending: &mut bool,
    out: &mut Vec<u8>,
    log: &mut L,
)
    requires
        i < pattern.tracks_line_data@.len(),
        num_channels > 0,
        old(playing)@.len() == num_channels,
        (i / num_channels) * num_master_track_columns <= usize::MAX,
        column_scaling ==> column_tables_wf(instruments@),
        xm_cell_defined(xm_state_of(old(encoder)@, old(playing)@, *old(master_command), *old(master_pending)), *pattern, instruments@,
            num_channels as int, num_master_track_columns as int, playback_engine_version as int, column_scaling, i as int),
    ensures
        final(playing)@.len() == num_channels,
        ({
            let (st, bytes) = xm_cell_step(xm_state_of(old(encoder)@, old(playing)@, *old(master_command), *old(master_pending)), *pattern,
                instruments@, num_channels as int, num_master_track_columns as int, playback_engine_version as int, column_scaling, i as int);
            &&& xm_state_of(final(encoder)@, final(playing)@, *final(master_command), *final(master_pending)) == st
            &&& final(out)@ == old(out)@ + bytes
        }),
{
    reveal(xm_cell_step);
    reveal(xm_cell_defined);
    let current_row = i / num_channels;
    let current_channel = i % num_channels;
    if current_channel == 0 {
        xm_start_row(encoder, pattern, current_row, num_channels, num_master_track_columns, playback_engine_version,
            master_command, master_pending, log);
        proof {
            assert(xm_state_of(encoder@, playing@, *master_command, *master_pending) == xm_row_start(
                xm_state_of(old(encoder)@, playing@, *old(master_command), *old(master_pending)), *pattern, current_row as int,
                num_channels as int, num_master_track_columns as int, playback_engine_version as int));
        }
    }
    let cell = &pattern.tracks_line_data[i];
    if !cell.is_set && !*master_pending {
        out.push(0x80);
        return;
    }
    let mut f = xm_cell_fields_exec(encoder, instruments, cell, current_channel, column_scaling, playing, current_row, log);
    if *master_pending && !f.effect_used {
        f.effect_used = true;
        f.effect = *master_command;
        *master_pending = false;
    }
    push_packed_cell(out, &f);
}

pub open spec fn initial_xm_state(encoder: XmEncoderModel, nc: int) -> XmPatternState {
    XmPatternState {
        encoder,
        playing: Seq::new(nc as nat, |k: int| None::<(usize, usize)>),
        master_command: (0u8, 0u8),
        master_pending: false,
    }
}

/// What converting an XM pattern needs: every cell's row can be addressed, and every step is
/// defined.
pub open spec fn xm_pattern_convertible(encoder: XmEncoderModel, pattern: PatternData, instruments: Seq<InstrumentData>, nc: int, nmc: int, pev: int, column_scaling: bool) -> bool {
    &&& (pattern.tracks_line_data@.len() > 0 ==> nc > 0)
    &&& pattern.tracks_line_data@.len() * nmc <= usize::MAX
    &&& (column_scaling ==> column_tables_wf(instruments))
    &&& xm_pattern_run_defined(initial_xm_state(encoder, nc), pattern, instruments, nc, nmc, pev, column_scaling, pattern.tracks_line_data@.len() as int)
}

proof fn lemma_xm_pattern_run_prefix(st: XmPatternState, pattern: PatternData, instruments: Seq<InstrumentData>, nc: int, nmc: int, pev: int, scaling: bool, n: int, m: int)
    requires
        0 <= m <= n,
        xm_pattern_run_defined(st, pattern, instruments, nc, nmc, pev, scaling, n),
    ensures
        xm_pattern_run_defined(st, pattern, instruments, nc, nmc, pev, scaling, m),
    decreases n,
{
    if m < n {
        lemma_xm_pattern_run_prefix(st, pattern, instruments, nc, nmc, pev, scaling, n - 1, m);
    }
}

/// Converts every cell of a pattern into XM's packed pattern data.
pub fn get_pattern_data<L: ConversionLog>(
    pattern: &PatternData,
    instruments: &[InstrumentData],
    num_channels: usize,
    num_master_track_columns: usize,
    playback_engine_version: i32,
    column_scaling: bool,
    encoder: &mut XmEncoder,
    log: &mut L,
) -> (r: Result<Vec<u8>, Error>)
    requires
        xm_pattern_convertible(old(encoder)@, *pattern, instruments@, num_channels as int, num_master_track_columns as int,
            playback_engine_version as int, column_scaling),
    ensures
        ({
            let (st, bytes) = xm_pattern_run(initial_xm_state(old(encoder)@, num_channels as int), *pattern, instruments@,
                num_channels as int, num_master_track_columns as int, playback_engine_version as int, column_scaling,
                pattern.tracks_line_data@.len() as int);
            &&& r matches Ok(data) && data@ == bytes
            &&& final(encoder)@ == st.encoder
        }),
{
    let ghost init = initial_xm_state(encoder@, num_channels as int);
    let ghost nc = num_channels as int;
    let ghost nmc = num_master_track_columns as int;
    let ghost pev = playback_engine_version as int;
    let total = pattern.tracks_line_data.len();
    let mut out: Vec<u8> = Vec::new();
    let mut playing: Vec<Option<(usize, usize)>> = Vec::new();
    let mut k: usize = 0;
    while k < num_channels
        invariant
            k <= num_channels,
            playing@ =~= Seq::new(k as nat, |q: int| None::<(usize, usize)>),
        decreases num_channels - k,
    {
        playing.push(None);
        k += 1;
    }
    let mut master_command: (u8, u8) = (0, 0);
    let mut master_pending = false;
    let mut i: usize = 0;
    while i < total
        invariant
            i <= total,
            total == pattern.tracks_line_data@.len(),
            total > 0 ==> num_channels > 0,
            total * num_master_track_columns <= usize::MAX,
            nc == num_channels,
            nmc == num_master_track_columns,
            pev == playback_engine_version,
            column_scaling ==> column_tables_wf(instruments@),
            playing@.len() == num_channels,
            xm_pattern_run_defined(init, *pattern, instruments@, nc, nmc, pev, column_scaling, total as int),
            xm_state_of(encoder@, playing@, master_command, master_pending)
                == xm_pattern_run(init, *pattern, instruments@, nc, nmc, pev, column_scaling, i as int).0,
            out@ == xm_pattern_run(init, *pattern, instruments@, nc, nmc, pev, column_scaling, i as int).1,
        decreases total - i,
    {
        proof {
            lemma_xm_pattern_run_prefix(init, *pattern, instruments@, nc, nmc, pev, column_scaling, total as int, i + 1);
        }
        assert((i / num_channels) * num_master_track_columns <= usize::MAX) by (nonlinear_arith)
            requires i < total, total * num_master_track_columns <= usize::MAX, num_channels > 0;
        convert_xm_cell(encoder, pattern, instruments, i, num_channels, num_master_track_columns, playback_engine_version,
            column_scaling, &mut playing, &mut master_command, &mut master_pending, &mut out, log);
        i += 1;
    }
    Ok(out)
}

/// Whether bit `bit` (a power of two) is set in a flag byte.
pub open spec fn flag_set(flags: int, bit: int) -> bool {
    (flags / bit) % 2 == 1
}

/// How an XM player reads a packed cell: a first byte with the high bit set says which of note,
/// instrument, volume, effect and parameter follow; otherwise all five follow, starting with
/// that byte. Returns the five fields (0 when absent) and the number of bytes read.
pub open spec fn unpack_xm_cell(b: Seq<u8>) -> (Seq<u8>, int) {
    let packed = b[0] >= 0x80;
    let flags: int = if packed { b[0] as int } else { 0x9F };
    let p0: int = if packed { 1 } else { 0 };
    let p1 = p0 + (if flag_set(flags, 1) { 1int } else { 0 });
    let p2 = p1 + (if flag_set(flags, 2) { 1int } else { 0 });
    let p3 = p2 + (if flag_set(flags, 4) { 1int } else { 0 });
    let p4 = p3 + (if flag_set(flags, 8) { 1int } else { 0 });
    let end = p4 + (if flag_set(flags, 16) { 1int } else { 0 });
    (seq![
        if flag_set(flags, 1) { b[p0] } else { 0u8 },
        if flag_set(flags, 2) { b[p1] } else { 0u8 },
        if flag_set(flags, 4) { b[p2] } else { 0u8 },
        if flag_set(flags, 8) { b[p3] } else { 0u8 },
        if flag_set(flags, 16) { b[p4] } else { 0u8 },
    ], end)
}

/// Reading a packed cell back gives the fields that were written (absent ones as 0) and
/// consumes exactly the packed bytes, provided a written note is below `0x80` (every XM note is).
pub proof fn law_xm_cell_unpacks(f: XmCellFields)
    requires
        f.note_set ==> f.note < 0x80,
    ensures
        ({
            let (fields, used) = unpack_xm_cell(pack_xm_cell(f));
            &&& used == pack_xm_cell(f).len()
            &&& fields == seq![
                if f.note_set { f.note } else { 0u8 },
                if f.instrument_set { f.instrument } else { 0u8 },
                if f.volume_used || f.panning_used { f.volume } else { 0u8 },
                f.effect.0,
                f.effect.1,
            ]
        }),
{
    let b = pack_xm_cell(f);
    let (fields, used) = unpack_xm_cell(b);
    assert(fields =~= seq![
        if f.note_set { f.note } else { 0u8 },
        if f.instrument_set { f.instrument } else { 0u8 },
        if f.volume_used || f.panning_used { f.volume } else { 0u8 },
        f.effect.0,
        f.effect.1,
    ]);
}

/// Every note the converter writes is an XM note (at most 97), so every converted cell reads
/// back as written.
pub proof fn law_converted_cells_unpack(st: XmPatternState, instruments: Seq<InstrumentData>, cell: TrackLineData, channel: int, column_scaling: bool)
    ensures
        ({
            let f = xm_cell_fields(st, instruments, cell, channel, column_scaling).0;
            &&& f.note_set ==> f.note <= 97
            &&& unpack_xm_cell(pack_xm_cell(f)).1 == pack_xm_cell(f).len()
        }),
{
    let f = xm_cell_fields(st, instruments, cell, channel, column_scaling).0;
    if let Some(n) = cell.note {
        let note = n@;
        if xm_note_spec(note) is Some && !(note == "OFF"@) && !(encode_utf8(note).len() != 3 || note.len() != 3
            || crate::text::note_letter_index(note[0], note[1]) is None) {
            let o = crate::text::decimal_digit_value(note[2]).unwrap();
            assert(0 <= o < 8);
            assert(0 <= crate::text::note_letter_index(note[0], note[1]).unwrap() <= 11);
        }
    }
    law_xm_cell_unpacks(f);
}

/// Whether the sample-offset command of a set cell `cell` (effect `0S`), if it has one, stays
/// within `i32` arithmetic for the length stored for the sample its note plays on its
/// instrument. A note name that would be sliced apart is left to the converter's own
/// requirement.
pub open spec fn xm_offset_fits(cell: TrackLineData, enc: XmEncoderModel) -> bool {
    let n = cell.effect_number@;
    let note = cell_note_field(cell).0 as int;
    let instrument = cell_instrument_field(cell).0 as int;
    (cell.is_set && n.len() >= 2 && n[0] == '0' && n[1] == 'S' && parse_hex_i32_spec(cell.effect_value@) is Some
        && !(cell.note matches Some(s) && xm_note_splits_char(s@))
        && enc.sample_length_frames_defined(note, instrument))
        ==> sample_offset_defined(parse_hex_i32_spec(cell.effect_value@).unwrap() as int, enc.sample_length_frames(note, instrument), false)
}

/// Whether every sample-offset command of the song's set cells stays within `i32` arithmetic
/// for the sample lengths `enc` holds (always so in sample-offset compatibility mode, which uses the
/// raw value).
pub open spec fn xm_offsets_fit(song: SongData, enc: XmEncoderModel) -> bool {
    song.sample_offset_compatibility_mode
    || forall|p: int, i: int| 0 <= p < song.patterns@.len() && 0 <= i < song.patterns@[p].tracks_line_data@.len()
        ==> #[trigger] xm_offset_fits(song.patterns@[p].tracks_line_data@[i], enc)
}

fn xm_cell_offset_fits(cell: &TrackLineData, encoder: &XmEncoder) -> (r: bool)
    ensures
        r == xm_offset_fits(*cell, encoder@),
{
    if !cell.is_set {
        return true;
    }
    let number = cell.effect_number.as_str();
    if number.unicode_len() < 2 {
        return true;
    }
    if number.get_char(0) != '0' || number.get_char(1) != 'S' {
        return true;
    }
    let value = match parse_hex_i32(cell.effect_value.as_str()) {
        Some(v) => v,
        None => return true,
    };
    let mut note: u8 = 0;
    if let Some(n) = &cell.note {
        if note_splits_char(n.as_str()) {
            return true;
        }
        if let Ok(v) = get_xm_note(n.as_str()) {
            note = v;
        }
    }
    let mut instrument: u8 = 0;
    if let Some(s) = &cell.instrument {
        if let Some(v) = parse_hex_i32(s.as_str()) {
            instrument = #[verifier::truncate] ((v as i64 + 1) as u8);
        }
    }
    assert(note == cell_note_field(*cell).0);
    assert(instrument == cell_instrument_field(*cell).0);
    if note != 0 && instrument != 0 && instrument as usize > encoder.num_instruments() {
        return true;
    }
    let length = encoder.sample_length_frames(note, instrument);
    if length <= 0 {
        return true;
    }
    assert(-0x8000_0000_0000_0000 <= (length as int) * (value as int) <= 0x7FFF_FFFF_FFFF_FFFF) by (nonlinear_arith)
        requires 0 < length <= i32::MAX, i32::MIN <= value <= i32::MAX;
    let product = length as i64 * value as i64;
    i32::MIN as i64 <= product && product <= i32::MAX as i64
}

/// Whether every sample-offset command of the song stays within `i32` arithmetic for the
/// sample lengths the encoder holds (see [`xm_offsets_fit`]).
pub fn xm_sample_offsets_fit(song: &SongData, encoder: &XmEncoder) -> (r: bool)
    ensures
        r == xm_offsets_fit(*song, encoder@),
{
    if song.sample_offset_compatibility_mode {
        return true;
    }
    let mut p: usize = 0;
    while p < song.patterns.len()
        invariant
            p <= song.patterns@.len(),
            !song.sample_offset_compatibility_mode,
            forall|q: int, i: int| 0 <= q < p && 0 <= i < song.patterns@[q].tracks_line_data@.len()
                ==> #[trigger] xm_offset_fits(song.patterns@[q].tracks_line_data@[i], encoder@),
        decreases song.patterns@.len() - p,
    {
        let cells = &song.patterns[p].tracks_line_data;
        let mut i: usize = 0;
        while i < cells.len()
            invariant
                p < song.patterns@.len(),
                !song.sample_offset_compatibility_mode,
                *cells == song.patterns@[p as int].tracks_line_data,
                i <= cells@.len(),
                forall|q: int, j: int| 0 <= q < p && 0 <= j < song.patterns@[q].tracks_line_data@.len()
                    ==> #[trigger] xm_offset_fits(song.patterns@[q].tracks_line_data@[j], encoder@),
                forall|j: int| 0 <= j < i ==> #[trigger] xm_offset_fits(cells@[j], encoder@),
            decreases cells@.len() - i,
        {
            if !xm_cell_offset_fits(&cells[i], encoder) {
                assert(!xm_offset_fits(song.patterns@[p as int].tracks_line_data@[i as int], encoder@));
                return false;
            }
            i += 1;
        }
        assert forall|q: int, j: int| 0 <= q < p + 1 && 0 <= j < song.patterns@[q].tracks_line_data@.len()
            implies #[trigger] xm_offset_fits(song.patterns@[q].tracks_line_data@[j], encoder@) by {
            if q == p {
                assert(xm_offset_fits(cells@[j], encoder@));
            }
        }
        p += 1;
    }
    true
}

} // verus!
