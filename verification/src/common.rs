//! Algorithms shared by the MOD and XM writers: the base-note/finetune split, ticks-per-row
//! tracking, and the fine-versus-coarse choice for pitch and volume slides.
use vstd::prelude::*;
use vstd::string::*;

use crate::model::{MasterTrackLineData, PatternData, TrackLineData};
use crate::numeric::{abs, round_div, round_div_sat, saturate_i32, trunc_div, trunc_div_i32, trunc_rem, trunc_rem_i32};
use crate::text::{parse_hex_i32, parse_hex_i32_spec};

verus! {

/// Renoise's C-4 in its own 0-119 note numbering: the neutral pivot of the base-note split.
pub const DEFAULT_NOTE: i32 = 48;

/// How a sample's own volume is carried into the output. MOD only supports `Disabled`/`Sample`.
#[derive(Debug, Clone, Copy, PartialEq, Eq, Structural)]
pub enum VolumeScalingMode {
    /// No scaling (called `None` in the command-line vocabulary).
    Disabled,
    Sample,
    Column,
}

#[derive(Debug, Clone, Copy, PartialEq, Eq, Structural)]
pub struct SampleProperties {
    /// Signed semitone offset from the sample's own base note, clamped to `[-127, 127]`.
    pub relative_tone: i32,
    /// Signed finetune remainder, in `1/128`-semitone units.
    pub fine_tune: i32,
}

/// The relative tone and finetune obtained from a pitch offset `pitch_units` (in
/// `1/128`-semitone units, `1536` per octave) and Renoise's base note, transpose and finetune;
/// the relative tone is clamped to `[-127, 127]`.
pub open spec fn sample_properties_spec(pitch_units: int, base_note: int, transpose: int, fine_tuning: int) -> SampleProperties {
    let tone = pitch_units / 128;
    let fine = pitch_units % 128 + fine_tuning;
    let tone = if fine > 80 { tone + 1 } else { tone };
    let fine = if fine > 80 { fine - 128 } else { fine };
    let tone = if tone < -127 { -127 } else if tone > 127 { 127 } else { tone };
    let relative = tone + (DEFAULT_NOTE - base_note + transpose);
    SampleProperties {
        relative_tone: (if relative < -127 { -127 } else if relative > 127 { 127 } else { relative }) as i32,
        fine_tune: fine as i32,
    }
}

/// The split keeps the pitch: when neither the semitone count nor the relative tone is
/// clamped, the relative tone above Renoise's reference (48 minus the base note plus the
/// transpose) in 128ths of a semitone, plus the finetune, is the pitch offset plus Renoise's
/// finetune; the finetune is at most 80 when Renoise's is, and at least -47 when Renoise's is
/// not negative.
pub proof fn law_sample_properties_keep_pitch(pitch_units: int, base_note: int, transpose: int, fine_tuning: int)
    requires
        i32::MIN <= pitch_units <= i32::MAX,
        -1000 <= fine_tuning <= 1000,
        -127 <= pitch_units / 128,
        pitch_units / 128 + 1 <= 127,
        -127 <= pitch_units / 128 + (DEFAULT_NOTE - base_note + transpose),
        pitch_units / 128 + 1 + (DEFAULT_NOTE - base_note + transpose) <= 127,
    ensures
        128 * (sample_properties_spec(pitch_units, base_note, transpose, fine_tuning).relative_tone
            - (DEFAULT_NOTE - base_note + transpose))
            + sample_properties_spec(pitch_units, base_note, transpose, fine_tuning).fine_tune == pitch_units + fine_tuning,
        fine_tuning <= 80 ==> sample_properties_spec(pitch_units, base_note, transpose, fine_tuning).fine_tune <= 80,
        fine_tuning >= 0 ==> sample_properties_spec(pitch_units, base_note, transpose, fine_tuning).fine_tune >= -47,
{
}

/// The inputs on which the base-note split stays within `i32` arithmetic.
pub open spec fn sample_properties_defined(pitch_units: int, base_note: int, transpose: int, fine_tuning: int) -> bool {
    let fine = pitch_units % 128 + fine_tuning;
    let tone = if fine > 80 { pitch_units / 128 + 1 } else { pitch_units / 128 };
    let tone = if tone < -127 { -127 } else if tone > 127 { 127 } else { tone };
    &&& i32::MIN <= DEFAULT_NOTE - base_note <= i32::MAX
    &&& i32::MIN <= DEFAULT_NOTE - base_note + transpose <= i32::MAX
    &&& fine <= i32::MAX
    &&& i32::MIN <= tone + (DEFAULT_NOTE - base_note + transpose) <= i32::MAX
}

/// Splits a pitch offset plus Renoise's base note/transpose/finetune into a tracker
/// relative-tone/finetune pair. `pitch_units` is `round(1536 * log2(rate / c2_frequency))`, the
/// sample rate measured against the Amiga C-2 frequency.
pub fn sample_properties_from_pitch(
    pitch_units: i32,
    ren_base_note: i32,
    transpose: i32,
    ren_fine_tuning: i32,
) -> (r: SampleProperties)
    requires
        sample_properties_defined(pitch_units as int, ren_base_note as int, transpose as int, ren_fine_tuning as int),
    ensures
        r == sample_properties_spec(pitch_units as int, ren_base_note as int, transpose as int, ren_fine_tuning as int),
{
    let renoise_value_to_add = DEFAULT_NOTE - ren_base_note + transpose;
    let mut transp = pitch_units >> 7;
    let mut ftune = pitch_units & 0x7F;
    assert(transp as int == (pitch_units as int) / 128) by (bit_vector)
        requires transp == pitch_units >> 7;
    assert(ftune as int == (pitch_units as int) % 128) by (bit_vector)
        requires ftune == pitch_units & 0x7F;
    ftune += ren_fine_tuning;
    if ftune > 80 {
        transp += 1;
        ftune -= 128;
    }
    let transp = if transp < -127 { -127 } else if transp > 127 { 127 } else { transp };
    let relative = transp + renoise_value_to_add;
    let relative = if relative < -127 { -127 } else if relative > 127 { 127 } else { relative };
    SampleProperties { relative_tone: relative, fine_tune: ftune }
}

/// Frames in a raw PCM byte buffer.
pub fn calculate_sample_length(byte_size: u64, bits_per_sample: u32, channels: u32) -> (r: u64)
    requires
        channels > 0,
    ensures
        r == (if bits_per_sample > 8 { byte_size / 2 } else { byte_size }) / (channels as u64),
{
    let mut size = byte_size;
    if bits_per_sample > 8 {
        size /= 2;
    }
    size / channels as u64
}

pub open spec fn tick_divider_spec(ticks_per_row: int) -> int {
    if ticks_per_row > 1 { ticks_per_row - 1 } else { ticks_per_row }
}

/// The number of ticks over which a per-tick effect acts in one row.
pub fn tick_divider(ticks_per_row: i32) -> (r: i32)
    ensures
        r == tick_divider_spec(ticks_per_row as int),
{
    if ticks_per_row > 1 { ticks_per_row - 1 } else { ticks_per_row }
}

/// Precision a coarse (per-tick) pitch slide would lose against a fine one.
pub open spec fn pitch_slide_loss(orig: int, ticks_per_row: int) -> int {
    let d = tick_divider_spec(ticks_per_row);
    if d == 0 {
        0
    } else {
        let loss = trunc_rem(orig, d);
        if loss > trunc_div(d, 2) {
            loss - d
        } else if orig == loss {
            d - orig
        } else {
            loss
        }
    }
}

/// Precision a coarse volume slide would lose: the pitch formula without its middle branch.
pub open spec fn volume_slide_loss(orig: int, ticks_per_row: int) -> int {
    let d = tick_divider_spec(ticks_per_row);
    if d == 0 {
        0
    } else {
        let loss = trunc_rem(orig, d);
        if loss > trunc_div(d, 2) { loss - d } else { loss }
    }
}

/// `orig % divider` does not overflow and the loss fits an `i32`.
pub open spec fn pitch_slide_loss_defined(orig: int, ticks_per_row: int) -> bool {
    let d = tick_divider_spec(ticks_per_row);
    d != 0 ==> !(orig == i32::MIN && d == -1) && i32::MIN <= pitch_slide_loss(orig, ticks_per_row) <= i32::MAX
}

pub open spec fn volume_slide_loss_defined(orig: int, ticks_per_row: int) -> bool {
    let d = tick_divider_spec(ticks_per_row);
    d != 0 ==> !(orig == i32::MIN && d == -1) && i32::MIN <= volume_slide_loss(orig, ticks_per_row) <= i32::MAX
}

pub fn get_precision_lost_in_pitch_slide(orig_value: i32, ticks_per_row: i32) -> (r: i32)
    requires
        pitch_slide_loss_defined(orig_value as int, ticks_per_row as int),
    ensures
        r == pitch_slide_loss(orig_value as int, ticks_per_row as int),
{
    let divider = tick_divider(ticks_per_row);
    if divider == 0 {
        return 0;
    }
    let loss = trunc_rem_i32(orig_value, divider);
    let half = trunc_div_i32(divider, 2);
    if loss > half {
        loss - divider
    } else if orig_value == loss {
        divider - orig_value
    } else {
        loss
    }
}

pub fn get_precision_lost_in_volume_slide(orig_value: i32, ticks_per_row: i32) -> (r: i32)
    requires
        volume_slide_loss_defined(orig_value as int, ticks_per_row as int),
    ensures
        r == volume_slide_loss(orig_value as int, ticks_per_row as int),
{
    let divider = tick_divider(ticks_per_row);
    if divider == 0 {
        return 0;
    }
    let loss = trunc_rem_i32(orig_value, divider);
    let half = trunc_div_i32(divider, 2);
    if loss > half { loss - divider } else { loss }
}

/// Whether a pitch slide is better written as a fine (one-shot) command than a coarse one.
pub open spec fn fine_portamento_closer(effect_value: int, ticks_per_row: int, threshold: int) -> bool {
    if effect_value <= 0 {
        false
    } else {
        let loss = abs(pitch_slide_loss(effect_value, ticks_per_row));
        effect_value < 19 && loss > threshold && effect_value - 15 < loss
    }
}

pub fn is_fine_portamento_closer_to_value(
    effect_value: i32,
    ticks_per_row: i32,
    accuracy_loss_threshold: i32,
) -> (r: bool)
    requires
        effect_value > 0 ==> pitch_slide_loss_defined(effect_value as int, ticks_per_row as int),
    ensures
        r == fine_portamento_closer(effect_value as int, ticks_per_row as int, accuracy_loss_threshold as int),
{
    if effect_value <= 0 {
        return false;
    }
    let signed_loss = get_precision_lost_in_pitch_slide(effect_value, ticks_per_row);
    let loss = if signed_loss < 0 { -signed_loss } else { signed_loss };
    if effect_value < 19 && loss > accuracy_loss_threshold {
        let fine_loss = effect_value - 15;
        return fine_loss < loss;
    }
    false
}

/// Whether a volume slide is better written as a fine command than a coarse one.
pub open spec fn fine_volume_closer(effect_value: int, ticks_per_row: int) -> bool {
    let loss = abs(volume_slide_loss(effect_value, ticks_per_row));
    loss > 0 && effect_value < 0x78 && effect_value - 0x3C < loss
}

pub open spec fn fine_volume_closer_defined(effect_value: int, ticks_per_row: int) -> bool {
    &&& volume_slide_loss_defined(effect_value, ticks_per_row)
    &&& (abs(volume_slide_loss(effect_value, ticks_per_row)) > 0 && effect_value < 0x78)
        ==> effect_value - 0x3C >= i32::MIN
}

pub fn is_fine_volume_closer_to_value(effect_value: i32, ticks_per_row: i32) -> (r: bool)
    requires
        fine_volume_closer_defined(effect_value as int, ticks_per_row as int),
    ensures
        r == fine_volume_closer(effect_value as int, ticks_per_row as int),
{
    let signed_loss = get_precision_lost_in_volume_slide(effect_value, ticks_per_row);
    let loss = if signed_loss < 0 { -signed_loss } else { signed_loss };
    if loss > 0 && effect_value < 0x78 {
        let fine_loss = effect_value - 0x3C;
        return fine_loss < loss;
    }
    false
}

/// Coarse per-tick portamento step: the rounded quotient, never zero for a nonzero input.
pub open spec fn portamento_value(orig: int, ticks_per_row: int) -> int {
    let d = tick_divider_spec(ticks_per_row);
    if d == 0 {
        0
    } else {
        let v = saturate_i32(round_div(orig, d));
        if v == 0 && orig != 0 { 1 } else { v }
    }
}

pub fn get_portamento_value(orig_value: i32, ticks_per_row: i32) -> (r: i32)
    ensures
        r == portamento_value(orig_value as int, ticks_per_row as int),
{
    let divider = tick_divider(ticks_per_row);
    if divider == 0 {
        return 0;
    }
    let v = round_div_sat(orig_value as i64, divider as i64);
    if v == 0 && orig_value != 0 { 1 } else { v }
}

/// Coarse per-tick volume-slide step. Renoise's volume precision is 4x a tracker's, hence the
/// floored division by 4 before dividing by the tick count.
pub open spec fn volume_slide_value(orig: int, ticks_per_row: int) -> int {
    let d = tick_divider_spec(ticks_per_row);
    if d == 0 { 0 } else { saturate_i32(round_div(orig / 4, d)) }
}

pub fn get_volume_slide_value(orig_value: i32, ticks_per_row: i32) -> (r: i32)
    ensures
        r == volume_slide_value(orig_value as int, ticks_per_row as int),
{
    let divider = tick_divider(ticks_per_row);
    if divider == 0 {
        return 0;
    }
    let quarter = orig_value >> 2;
    assert(quarter as int == (orig_value as int) / 4) by (bit_vector)
        requires quarter == orig_value >> 2;
    round_div_sat(quarter as i64, divider as i64)
}

/// The global "set ticks" command `"Z" + letter` with a hexadecimal value.
pub open spec fn tick_command(effect_number: Seq<char>, effect_value: Seq<char>, letter: char) -> Option<i32> {
    if effect_number.len() >= 2 && effect_number[0] == 'Z' && effect_number[1] == letter {
        parse_hex_i32_spec(effect_value)
    } else {
        None
    }
}

/// `'L'` when the playback engine is compatible with the speed-based timing model, else `'K'`.
pub open spec fn tick_letter(playback_engine_version: int) -> char {
    if playback_engine_version == 1 { 'L' } else { 'K' }
}

pub open spec fn track_tick_command(cell: TrackLineData, letter: char) -> Option<i32> {
    tick_command(cell.effect_number@, cell.effect_value@, letter)
}

pub open spec fn master_tick_command(cell: MasterTrackLineData, letter: char) -> Option<i32> {
    tick_command(cell.effect_number@, cell.effect_value@, letter)
}

/// The first tick command among channels `from..num_channels` of `row`.
pub open spec fn scan_track_ticks(pattern: PatternData, row: int, num_channels: int, letter: char, from: int) -> Option<i32>
    decreases num_channels - from,
{
    if from >= num_channels {
        None
    } else {
        match track_tick_command(pattern.tracks_line_data@[row * num_channels + from], letter) {
            Some(v) => Some(v),
            None => scan_track_ticks(pattern, row, num_channels, letter, from + 1),
        }
    }
}

/// The first tick command among master-track columns `from..num_cols` of `row`.
pub open spec fn scan_master_ticks(pattern: PatternData, row: int, num_cols: int, letter: char, from: int) -> Option<i32>
    decreases num_cols - from,
{
    if from >= num_cols {
        None
    } else {
        match master_tick_command(pattern.master_track_line_data@[row * num_cols + from], letter) {
            Some(v) => Some(v),
            None => scan_master_ticks(pattern, row, num_cols, letter, from + 1),
        }
    }
}

/// The ticks-per-row value in force after `row`: set by the first tick command on one of the
/// row's channels, else on one of its master-track columns, else unchanged.
pub open spec fn ticks_per_row_for_line(
    pattern: PatternData,
    row: int,
    num_channels: int,
    num_master_track_columns: int,
    playback_engine_version: int,
    current: int,
) -> int {
    let letter = tick_letter(playback_engine_version);
    match scan_track_ticks(pattern, row, num_channels, letter, 0) {
        Some(v) => v as int,
        None => match scan_master_ticks(pattern, row, num_master_track_columns, letter, 0) {
            Some(v) => v as int,
            None => current,
        },
    }
}

/// Every cell of `row` that the tick scan reads exists.
pub open spec fn row_cells_exist(pattern: PatternData, row: int, num_channels: int, num_master_track_columns: int, playback_engine_version: int) -> bool {
    &&& row * num_channels + num_channels <= pattern.tracks_line_data@.len()
    &&& scan_track_ticks(pattern, row, num_channels, tick_letter(playback_engine_version), 0) is None
        ==> row * num_master_track_columns + num_master_track_columns <= pattern.master_track_line_data@.len()
}

/// Scans one pattern row for a "set ticks" global command (`"Z" + letter`, the letter chosen by
/// the playback engine version) on the channels, then on the master track, and returns the
/// updated ticks-per-row value, or `current` when the row has none.
pub fn compute_ticks_per_row_for_line(
    pattern: &PatternData,
    row: usize,
    num_channels: usize,
    num_master_track_columns: usize,
    playback_engine_version: i32,
    current: i32,
) -> (r: i32)
    requires
        row_cells_exist(*pattern, row as int, num_channels as int, num_master_track_columns as int, playback_engine_version as int),
    ensures
        r == ticks_per_row_for_line(*pattern, row as int, num_channels as int, num_master_track_columns as int, playback_engine_version as int, current as int),
{
    let target_letter = if playback_engine_version == 1 { 'L' } else { 'K' };
    let mut channel: usize = 0;
    while channel < num_channels
        invariant
            channel <= num_channels,
            target_letter == tick_letter(playback_engine_version as int),
            row * num_channels + num_channels <= pattern.tracks_line_data@.len(),
            scan_track_ticks(*pattern, row as int, num_channels as int, target_letter, 0)
                == scan_track_ticks(*pattern, row as int, num_channels as int, target_letter, channel as int),
        decreases num_channels - channel,
    {
        let cell = pattern.track_line(row, channel, num_channels);
        if let Some(v) = parse_tick_command(cell.effect_number.as_str(), cell.effect_value.as_str(), target_letter) {
            return v;
        }
        channel += 1;
    }
    let mut col: usize = 0;
    while col < num_master_track_columns
        invariant
            col <= num_master_track_columns,
            target_letter == tick_letter(playback_engine_version as int),
            scan_track_ticks(*pattern, row as int, num_channels as int, target_letter, 0) is None,
            row * num_master_track_columns + num_master_track_columns <= pattern.master_track_line_data@.len(),
            scan_master_ticks(*pattern, row as int, num_master_track_columns as int, target_letter, 0)
                == scan_master_ticks(*pattern, row as int, num_master_track_columns as int, target_letter, col as int),
        decreases num_master_track_columns - col,
    {
        let cell = pattern.master_line(row, col, num_master_track_columns);
        if let Some(v) = parse_tick_command(cell.effect_number.as_str(), cell.effect_value.as_str(), target_letter) {
            return v;
        }
        col += 1;
    }
    current
}

/// Reads a `"Z" + target_letter` effect with a hexadecimal value.
pub fn parse_tick_command(effect_number: &str, effect_value: &str, target_letter: char) -> (r: Option<i32>)
    ensures
        r == tick_command(effect_number@, effect_value@, target_letter),
{
    let n = effect_number.unicode_len();
    if n < 2 {
        return None;
    }
    if effect_number.get_char(0) != 'Z' {
        return None;
    }
    if effect_number.get_char(1) != target_letter {
        return None;
    }
    parse_hex_i32(effect_value)
}

/// A coarse portamento step is never rounded to zero for a nonzero value, whenever there are
/// ticks to slide over.
pub proof fn law_portamento_value_never_zero(orig: int, ticks_per_row: int)
    requires
        orig != 0,
        tick_divider_spec(ticks_per_row) != 0,
    ensures
        portamento_value(orig, ticks_per_row) != 0,
{
}

} // verus!
