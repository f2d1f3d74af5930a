//! XM note numbering, key maps, header fields, and the Renoise-to-XM effect tables.
use vstd::prelude::*;
use vstd::string::*;
use vstd::utf8::encode_utf8;

use crate::commands as shared;
use crate::commands::{
    arpeggio_cmd, note_cut_cmd, note_delay_cmd, panning_from_panning_cmd, pattern_delay_cmd, retrig_note_cmd,
    sample_offset_defined, sample_offset_value, set_panning_cmd, set_volume_cmd, set_volume_from_volume_cmd, volume_down_cmd,
    volume_up_cmd,
};
use crate::common::{
    calculate_sample_length, fine_volume_closer_defined, sample_properties_defined, sample_properties_from_pitch,
    sample_properties_spec,
};
use crate::error::{ConversionError, Error};
use crate::model::LoopMode;
use crate::numeric::round_div;
use crate::text::{decimal_digit_value, hex_digit, hex_digit_value, note_letter, note_letter_index, parse_hex_i32, parse_hex_i32_spec};
use crate::xm_format::commands as xm;
use crate::xm_format::commands::{
    glide_vol_pan_cmd, global_volume_slide_down_cmd, global_volume_slide_up_cmd, multi_retrig_cmd, pan_slide_step,
    panning_slide_effect_step, set_global_volume_cmd, set_panning_volume_column_byte, set_volume_volume_column_byte,
    volume_down_volume_column_byte, volume_up_volume_column_byte, xm_portamento_cmd, xm_portamento_defined,
    xm_set_tempo_cmd, xm_speed_cmd, i32_shl4,
};

verus! {

/// The XM note of a Renoise note name: `"OFF"` is key-off (97), a three-byte name such as
/// `"C-4"` is `12 * octave + semitone + 1` for octaves 0-7; any other name is no note (0).
/// `None` for a recognised name whose octave is not a digit below 8 (it is refused).
pub open spec fn xm_note_spec(note: Seq<char>) -> Option<u8> {
    if note == "OFF"@ {
        Some(97u8)
    } else if encode_utf8(note).len() != 3 || note.len() != 3 || note_letter_index(note[0], note[1]) is None {
        Some(0u8)
    } else {
        match decimal_digit_value(note[2]) {
            Some(octave) => if octave >= 8 {
                None
            } else {
                Some((12 * octave + note_letter_index(note[0], note[1]).unwrap() + 1) as u8)
            },
            None => None,
        }
    }
}

/// XM notes count semitones from C-0 = 1: a note name with octave digit `o` below 8 and a letter
/// pair at semitone `i` of the octave (see [`crate::text::law_note_letters_are_chromatic`]) is
/// XM note `12 * o + i + 1`; so the same letter one octave up is 12 notes higher, and the next
/// semitone of an octave is the next note.
pub proof fn law_xm_note_numbers(c0: char, c1: char, d: char)
    requires
        note_letter_index(c0, c1) is Some,
        '0' <= d <= '7',
    ensures
        xm_note_spec(seq![c0, c1, d]) == Some((12 * (d as int - '0' as int) + note_letter_index(c0, c1).unwrap() + 1) as u8),
        1 <= 12 * (d as int - '0' as int) + note_letter_index(c0, c1).unwrap() + 1 <= 96,
{
    let note = seq![c0, c1, d];
    reveal_strlit("OFF");
    assert(note != "OFF"@) by {
        assert("OFF"@[2] == 'F');
    }
    assert(vstd::utf8::is_ascii_chars(note));
    vstd::utf8::is_ascii_chars_encode_utf8(note);
    crate::text::law_note_letters_are_chromatic();
}


/// Whether slicing the first two bytes of a three-byte note name splits a character (the
/// conversion panics on such names).
pub open spec fn xm_note_splits_char(note: Seq<char>) -> bool {
    encode_utf8(note).len() == 3 && crate::text::note_slice_splits_char(note)
}

/// Whether converting note name `note` would slice a character apart (see
/// [`xm_note_splits_char`]).
pub fn note_splits_char(note: &str) -> (r: bool)
    ensures
        r == xm_note_splits_char(note@),
{
    let k = note.unicode_len();
    if k == 2 {
        let c0 = note.get_char(0) as u32;
        let c1 = note.get_char(1) as u32;
        let r = c0 < 0x80 && 0x80 <= c1 && c1 < 0x800;
        proof {
            if r {
                reveal_with_fuel(encode_utf8, 3);
                assert(note@.drop_first().drop_first().len() == 0);
                assert(encode_utf8(note@).len() == 3);
            }
        }
        r
    } else if k == 1 {
        let c0 = note.get_char(0) as u32;
        let r = 0x800 <= c0 && c0 < 0x10000;
        proof {
            if r {
                reveal_with_fuel(encode_utf8, 2);
                assert(note@.drop_first().len() == 0);
                assert(!(0xD800 <= c0 <= 0xDFFF));
                assert(encode_utf8(note@).len() == 3);
            }
        }
        r
    } else {
        false
    }
}

pub fn get_xm_note(note: &str) -> (r: Result<u8, Error>)
    requires
        !xm_note_splits_char(note@),
    ensures
        r matches Ok(n) ==> xm_note_spec(note@) == Some(n) && n <= 97,
        r is Err <==> xm_note_spec(note@) is None,
        r matches Err(e) ==> (e matches Error::Conversion(ConversionError::NoteOutOfRange(s)) && s@ == note@),
{
    let n = note.unicode_len();
    if n == 3 && note.get_char(0) == 'O' && note.get_char(1) == 'F' && note.get_char(2) == 'F' {
        proof {
            reveal_strlit("OFF");
            assert(note@ =~= "OFF"@);
        }
        return Ok(97);
    }
    proof {
        reveal_strlit("OFF");
        if note@ == "OFF"@ {
            assert(note@[0] == 'O' && note@[1] == 'F' && note@[2] == 'F');
        }
    }
    if note.as_bytes().len() != 3 || n != 3 {
        return Ok(0);
    }
    let index = match note_letter(note.get_char(0), note.get_char(1)) {
        Some(i) => i,
        None => return Ok(0),
    };
    let c2 = note.get_char(2);
    if !('0' <= c2 && c2 <= '9') {
        return Err(Error::Conversion(ConversionError::NoteOutOfRange(note.to_owned())));
    }
    let octave = (c2 as u32 - '0' as u32) as i32;
    if octave >= 8 {
        return Err(Error::Conversion(ConversionError::NoteOutOfRange(note.to_owned())));
    }
    Ok((12 * octave + index + 1) as u8)
}

/// The XM sample-header loop type: none 0, forward 1, ping-pong 2.
pub open spec fn loop_mode_byte(loop_mode: LoopMode) -> u8 {
    match loop_mode {
        LoopMode::Off => 0,
        LoopMode::Forward => 1,
        LoopMode::PingPong => 2,
    }
}

pub fn get_sample_loop_mode(loop_mode: LoopMode) -> (r: u8)
    ensures
        r == loop_mode_byte(loop_mode),
{
    match loop_mode {
        LoopMode::Off => 0,
        LoopMode::Forward => 1,
        LoopMode::PingPong => 2,
    }
}

/// A loop point in frames as bytes of the encoded sample.
pub open spec fn sample_loop_value(value: int, bits_per_sample: int, is_stereo: bool) -> int {
    value * (bits_per_sample / 8) * (if is_stereo { 2int } else { 1int })
}

pub fn get_sample_loop_value(value: u32, bits_per_sample: u32, is_stereo: bool) -> (r: u32)
    requires
        sample_loop_value(value as int, bits_per_sample as int, is_stereo) <= u32::MAX,
    ensures
        r == sample_loop_value(value as int, bits_per_sample as int, is_stereo),
{
    let bytes = bits_per_sample / 8;
    let channels: u32 = if is_stereo { 2 } else { 1 };
    assert(value * bytes <= value * bytes * channels) by (nonlinear_arith)
        requires channels >= 1, value >= 0, bytes >= 0;
    value * bytes * channels
}

/// XM envelope type bits: on, sustain, loop.
pub open spec fn volume_panning_type(enabled: bool, sustain_enabled: bool, loop_enabled: bool) -> u8 {
    ((if enabled { 1int } else { 0int }) + (if sustain_enabled { 2int } else { 0int }) + (if loop_enabled { 4int } else { 0int })) as u8
}

pub fn get_volume_panning_type(enabled: bool, sustain_enabled: bool, loop_enabled: bool) -> (r: u8)
    ensures
        r == volume_panning_type(enabled, sustain_enabled, loop_enabled),
{
    let a: u8 = if enabled { 1 } else { 0 };
    let b: u8 = if sustain_enabled { 2 } else { 0 };
    let c: u8 = if loop_enabled { 4 } else { 0 };
    a + b + c
}

/// Index of the first envelope point at `x`, 0 when there is none.
#[verifier::opaque]
pub open spec fn point_number(points: Seq<(i32, i32)>, x: int) -> u8 {
    if exists|i: int| 0 <= i < points.len() && points[i].0 == x {
        (choose|i: int| 0 <= i < points.len() && points[i].0 == x && forall|j: int| 0 <= j < i ==> points[j].0 != x) as u8
    } else {
        0u8
    }
}

pub fn get_point_number(points: &[(i32, i32)], value: i32) -> (r: u8)
    ensures
        (forall|j: int| 0 <= j < points@.len() ==> points@[j].0 != value) ==> r == 0,
        (exists|i: int| 0 <= i < points@.len() && points@[i].0 == value) ==> exists|i: int|
            0 <= i < points@.len() && points@[i].0 == value && (forall|j: int| 0 <= j < i ==> points@[j].0 != value)
                && r == i as u8,
{
    let mut i: usize = 0;
    while i < points.len()
        invariant
            i <= points@.len(),
            forall|j: int| 0 <= j < i ==> points@[j].0 != value,
        decreases points@.len() - i,
    {
        if points[i].0 == value {
            return i as u8;
        }
        i += 1;
    }
    0
}

/// What the encoder keeps of one sample: its base note, finetune and length in frames.
#[derive(Debug, Clone, Copy, PartialEq, Eq, Structural)]
pub struct XmSampleInfo {
    pub related_note: i32,
    pub fine_tune: i32,
    pub length: i32,
}

impl XmSampleInfo {
    pub open spec fn zero() -> XmSampleInfo {
        XmSampleInfo { related_note: 0, fine_tune: 0, length: 0 }
    }

    pub fn new() -> (r: XmSampleInfo)
        ensures
            r == XmSampleInfo::zero(),
    {
        XmSampleInfo { related_note: 0, fine_tune: 0, length: 0 }
    }
}

/// An instrument's key map and its samples' information.
pub struct XmInstrumentInfo {
    pub key_map: [Option<u8>; 120],
    pub samples: Vec<XmSampleInfo>,
}

/// The state of an [`XmInstrumentInfo`].
pub struct XmInstrumentModel {
    pub key_map: Seq<Option<u8>>,
    pub samples: Seq<XmSampleInfo>,
}

pub struct XmEncoder {
    ticks_per_row: i32,
    playback_engine_version: i32,
    pitch_compatibility_mode: bool,
    sample_offset_compatibility_mode: bool,
    instruments: Vec<XmInstrumentInfo>,
}

/// The state of an [`XmEncoder`].
pub struct XmEncoderModel {
    pub ticks_per_row: i32,
    pub playback_engine_version: i32,
    pub pitch_compatibility_mode: bool,
    pub sample_offset_compatibility_mode: bool,
    pub instruments: Seq<XmInstrumentModel>,
}

pub open spec fn instrument_model(i: XmInstrumentInfo) -> XmInstrumentModel {
    XmInstrumentModel { key_map: i.key_map@, samples: i.samples@ }
}

impl View for XmEncoder {
    type V = XmEncoderModel;

    closed spec fn view(&self) -> XmEncoderModel {
        XmEncoderModel {
            ticks_per_row: self.ticks_per_row,
            playback_engine_version: self.playback_engine_version,
            pitch_compatibility_mode: self.pitch_compatibility_mode,
            sample_offset_compatibility_mode: self.sample_offset_compatibility_mode,
            instruments: self.instruments@.map_values(|i: XmInstrumentInfo| instrument_model(i)),
        }
    }
}

impl XmEncoderModel {
    /// Every key map has 120 entries.
    pub open spec fn wf(self) -> bool {
        forall|i: int| 0 <= i < self.instruments.len() ==> #[trigger] self.instruments[i].key_map.len() == 120
    }

    /// The sample slot `note` (1-based) plays on 1-based `instrument`: its key map entry, slot 0
    /// where the key map has none.
    pub open spec fn played_sample(self, note: int, instrument: int) -> int {
        let key_map = self.instruments[instrument - 1].key_map;
        if note - 1 < key_map.len() {
            match key_map[note - 1] {
                Some(s) => s as int,
                None => 0,
            }
        } else {
            0
        }
    }

    pub open spec fn played_sample_defined(self, note: int, instrument: int) -> bool {
        1 <= note && 1 <= instrument <= self.instruments.len()
    }

    /// Length in frames of the sample a note plays (0 with no note, no instrument, or no such
    /// sample).
    pub open spec fn sample_length_frames(self, note: int, instrument: int) -> int {
        if note == 0 || instrument == 0 {
            0
        } else {
            let used = self.played_sample(note, instrument);
            let samples = self.instruments[instrument - 1].samples;
            if used < samples.len() { samples[used].length as int } else { 0 }
        }
    }

    pub open spec fn sample_length_frames_defined(self, note: int, instrument: int) -> bool {
        (note != 0 && instrument != 0) ==> self.played_sample_defined(note, instrument)
    }

    /// Volume column of a Renoise volume value: set volume for `0x-8x`, fades for `'I'`/`'O'`, 0
    /// otherwise.
    pub open spec fn volume_column_from_volume(self, column: Seq<char>) -> u8 {
        if column.len() < 2 {
            0
        } else {
            let command = column[0];
            let value = match hex_digit_value(column[1]) { Some(v) => v, None => 0 };
            if '0' <= command && command <= '8' {
                match parse_hex_i32_spec(column) {
                    Some(h) => set_volume_volume_column_byte(h as int),
                    None => 0,
                }
            } else if command == 'I' {
                volume_up_volume_column_byte(value, self.ticks_per_row as int)
            } else if command == 'O' {
                volume_down_volume_column_byte(value, self.ticks_per_row as int)
            } else {
                0
            }
        }
    }

    /// Volume column of a Renoise panning value: set panning for `0x-8x`, panning slides for
    /// `'J'`/`'K'`, 0 otherwise.
    pub open spec fn volume_column_from_panning(self, column: Seq<char>) -> u8 {
        if column.len() < 2 {
            0
        } else {
            let command = column[0];
            let value = match hex_digit_value(column[1]) { Some(v) => v, None => 0 };
            if '0' <= command && command <= '8' {
                match parse_hex_i32_spec(column) {
                    Some(h) => set_panning_volume_column_byte(h as int),
                    None => 0,
                }
            } else if command == 'J' {
                (pan_slide_step(value, self.ticks_per_row as int) + 0xD0) as u8
            } else if command == 'K' {
                (pan_slide_step(value, self.ticks_per_row as int) + 0xE0) as u8
            } else {
                0
            }
        }
    }

    /// Per-note Renoise command `'0' + command`; pitch commands that are refused become `(0, 0)`.
    pub open spec fn sample_commands(self, command: char, value: int, note: int, instrument: int) -> (u8, u8) {
        let ticks = self.ticks_per_row as int;
        let compat = self.pitch_compatibility_mode;
        let unwrap = |r: Result<(u8, u8), Error>| match r { Ok(c) => c, Err(_) => (0u8, 0u8) };
        if command == 'A' { arpeggio_cmd(value) }
        else if command == 'U' { unwrap(xm_portamento_cmd(1, value, ticks, false, compat)) }
        else if command == 'D' { unwrap(xm_portamento_cmd(2, value, ticks, false, compat)) }
        else if command == 'M' { set_volume_cmd(value) }
        else if command == 'G' { unwrap(xm_speed_cmd(3, value, ticks, false, compat)) }
        else if command == 'I' { volume_up_cmd(value, ticks) }
        else if command == 'O' { volume_down_cmd(value, ticks) }
        else if command == 'P' { set_panning_cmd(value) }
        else if command == 'S' {
            (0x9u8, sample_offset_value(value, self.sample_length_frames(note, instrument), self.sample_offset_compatibility_mode))
        }
        else if command == 'B' { (0x21u8, 0x9Fu8) }
        else if command == 'Q' { note_delay_cmd(value) }
        else if command == 'R' { multi_retrig_cmd(value as i32) }
        else if command == 'V' { (0x04u8, value as u8) }
        else if command == 'T' { (0x07u8, value as u8) }
        else { (0u8, 0u8) }
    }

    pub open spec fn sample_commands_defined(self, command: char, value: int, note: int, instrument: int) -> bool {
        let ticks = self.ticks_per_row as int;
        &&& command == 'U' ==> xm_portamento_defined(1, value, ticks, self.pitch_compatibility_mode)
        &&& command == 'D' ==> xm_portamento_defined(2, value, ticks, self.pitch_compatibility_mode)
        &&& command == 'M' ==> value < i32::MAX
        &&& (command == 'I' || command == 'O') ==> fine_volume_closer_defined(value, ticks)
        &&& command == 'S' ==> {
            &&& self.sample_length_frames_defined(note, instrument)
            &&& sample_offset_defined(value, self.sample_length_frames(note, instrument), self.sample_offset_compatibility_mode)
        }
    }

    /// Global Renoise command `'Z' + command`: tempo, lines per beat (as speed, only for the
    /// speed-based timing model), ticks per line, pattern break, pattern delay.
    pub open spec fn global_commands(self, command: char, value: int) -> (u8, u8) {
        if command == 'T' { xm_set_tempo_cmd(value) }
        else if command == 'L' { if self.playback_engine_version == 1 { (0x0Fu8, value as u8) } else { (0u8, 0u8) } }
        else if command == 'K' { (0x0Fu8, value as u8) }
        else if command == 'B' { (0x0Du8, value as u8) }
        else if command == 'D' { pattern_delay_cmd(value) }
        else { (0u8, 0u8) }
    }

    /// An effect-column command (`None` when refused: fewer than two characters or no hexadecimal
    /// value); per-note
    /// (`'0'`) and global (`'Z'`) commands are converted, others are `(0, 0)`.
    pub open spec fn xm_effect(self, number: Seq<char>, value: Seq<char>, note: int, instrument: int) -> Option<(u8, u8)> {
        if number.len() < 2 {
            None
        } else {
            match parse_hex_i32_spec(value) {
                None => None,
                Some(v) => Some(
                    if number[0] == '0' { self.sample_commands(number[1], v as int, note, instrument) }
                    else if number[0] == 'Z' { self.global_commands(number[1], v as int) }
                    else { (0u8, 0u8) }
                ),
            }
        }
    }

    pub open spec fn xm_effect_defined(self, number: Seq<char>, value: Seq<char>, note: int, instrument: int) -> bool {
        (number.len() >= 2 && number[0] == '0' && parse_hex_i32_spec(value) is Some)
            ==> self.sample_commands_defined(number[1], parse_hex_i32_spec(value).unwrap() as int, note, instrument)
    }

    /// A master-track command: global volume (`0M`, `0I`, `0O`) and, unless only global volume is
    /// asked for, the global commands.
    pub open spec fn master_track_command(self, number: Seq<char>, value: Seq<char>, only_global_volume: bool) -> Option<(u8, u8)> {
        if number.len() < 2 {
            None
        } else {
            match parse_hex_i32_spec(value) {
                None => None,
                Some(v) => Some(
                    if number[0] == '0' {
                        if number[1] == 'M' { set_global_volume_cmd(v as int) }
                        else if number[1] == 'I' { global_volume_slide_up_cmd(v as int, self.ticks_per_row as int) }
                        else if number[1] == 'O' { global_volume_slide_down_cmd(v as int, self.ticks_per_row as int) }
                        else { (0u8, 0u8) }
                    } else if number[0] == 'Z' {
                        if only_global_volume { (0u8, 0u8) } else { self.global_commands(number[1], v as int) }
                    } else {
                        (0u8, 0u8)
                    }
                ),
            }
        }
    }

    /// A volume/panning column command with a single hex digit moved to the effect column.
    pub open spec fn vol_pan_to_effect(self, command: char, value: int) -> (u8, u8) {
        let ticks = self.ticks_per_row as int;
        let compat = self.pitch_compatibility_mode;
        let unwrap = |r: Result<(u8, u8), Error>| match r { Ok(c) => c, Err(_) => (0u8, 0u8) };
        if command == 'U' { unwrap(xm_speed_cmd(1, i32_shl4(value), ticks, true, compat)) }
        else if command == 'D' { unwrap(xm_speed_cmd(2, i32_shl4(value), ticks, true, compat)) }
        else if command == 'G' { unwrap(glide_vol_pan_cmd(value, ticks, compat)) }
        else if command == 'B' { (0x21u8, (0x9F - value) as u8) }
        else if command == 'Q' { note_delay_cmd(value) }
        else if command == 'R' { retrig_note_cmd(value) }
        else if command == 'C' { note_cut_cmd(value) }
        else { (0u8, 0u8) }
    }

    /// A volume-column value moved to the effect column.
    pub open spec fn volume_to_effect(self, column: Seq<char>) -> (u8, u8) {
        if column.len() < 2 {
            (0u8, 0u8)
        } else {
            let command = column[0];
            let value = match hex_digit_value(column[1]) { Some(v) => v, None => 0 };
            if '0' <= command && command <= '8' {
                match parse_hex_i32_spec(column) {
                    Some(h) => set_volume_from_volume_cmd(h as int),
                    None => (0u8, 0u8),
                }
            } else if command == 'I' {
                volume_up_cmd(value * 16, self.ticks_per_row as int)
            } else if command == 'O' {
                volume_down_cmd(value * 16, self.ticks_per_row as int)
            } else {
                self.vol_pan_to_effect(command, value)
            }
        }
    }

    pub open spec fn volume_to_effect_defined(self, column: Seq<char>) -> bool {
        (column.len() >= 2 && (column[0] == 'I' || column[0] == 'O')) ==> {
            let value = match hex_digit_value(column[1]) { Some(v) => v, None => 0 };
            fine_volume_closer_defined(value * 16, self.ticks_per_row as int)
        }
    }

    /// A panning-column value moved to the effect column.
    pub open spec fn panning_to_effect(self, column: Seq<char>) -> (u8, u8) {
        if column.len() < 2 {
            (0u8, 0u8)
        } else {
            let command = column[0];
            let value = match hex_digit_value(column[1]) { Some(v) => v, None => 0 };
            if '0' <= command && command <= '8' {
                match parse_hex_i32_spec(column) {
                    Some(h) => panning_from_panning_cmd(h as int),
                    None => (0u8, 0u8),
                }
            } else if command == 'J' {
                (0x19u8, (16 * panning_slide_effect_step(value, self.ticks_per_row as int)) as u8)
            } else if command == 'K' {
                (0x19u8, panning_slide_effect_step(value, self.ticks_per_row as int) as u8)
            } else {
                self.vol_pan_to_effect(command, value)
            }
        }
    }

    /// A delay-column value (`00-FF` of a row) as an `EDx` note delay in ticks, `(0, 0)` when it
    /// rounds to no delay.
    pub open spec fn delay_to_effect(self, column: Seq<char>) -> (u8, u8) {
        match parse_hex_i32_spec(column) {
            None => (0u8, 0u8),
            Some(v) => {
                let ticks = self.ticks_per_row as int;
                let result = round_div(v * ticks, 255);
                let result = if result == ticks { result - 1 } else { result };
                if result > 0 { note_delay_cmd(result) } else { (0u8, 0u8) }
            },
        }
    }

    pub open spec fn delay_to_effect_defined(self, column: Seq<char>) -> bool {
        parse_hex_i32_spec(column) matches Some(v) ==> i32::MIN <= v * self.ticks_per_row <= i32::MAX
    }
}

impl XmEncoder {
    /// One instrument per key map (as far as there are sample counts), each with that many
    /// zeroed samples.
    pub fn new(
        key_maps: &[[Option<u8>; 120]],
        sample_counts: &[usize],
        initial_ticks_per_row: i32,
        playback_engine_version: i32,
        pitch_compatibility_mode: bool,
        sample_offset_compatibility_mode: bool,
    ) -> (r: XmEncoder)
        ensures
            r@.wf(),
            r@.instruments.len() == if key_maps@.len() < sample_counts@.len() { key_maps@.len() } else { sample_counts@.len() },
            forall|i: int| 0 <= i < r@.instruments.len() ==> #[trigger] r@.instruments[i].key_map == key_maps@[i]@
                && r@.instruments[i].samples.len() == sample_counts@[i]
                && forall|k: int| 0 <= k < sample_counts@[i] ==> #[trigger] r@.instruments[i].samples[k] == XmSampleInfo::zero(),
            r@.ticks_per_row == initial_ticks_per_row,
            r@.playback_engine_version == playback_engine_version,
            r@.pitch_compatibility_mode == pitch_compatibility_mode,
            r@.sample_offset_compatibility_mode == sample_offset_compatibility_mode,
    {
        let n = if key_maps.len() < sample_counts.len() { key_maps.len() } else { sample_counts.len() };
        let mut instruments: Vec<XmInstrumentInfo> = Vec::new();
        let mut i: usize = 0;
        while i < n
            invariant
                i <= n,
                n <= key_maps@.len(),
                n <= sample_counts@.len(),
                instruments@.len() == i,
                forall|j: int| 0 <= j < i ==> #[trigger] instruments@[j].key_map@ == key_maps@[j]@
                    && instruments@[j].samples@.len() == sample_counts@[j]
                    && forall|k: int| 0 <= k < sample_counts@[j] ==> #[trigger] instruments@[j].samples@[k] == XmSampleInfo::zero(),
            decreases n - i,
        {
            let count = sample_counts[i];
            let mut samples: Vec<XmSampleInfo> = Vec::new();
            let mut k: usize = 0;
            while k < count
                invariant
                    k <= count,
                    samples@.len() == k,
                    forall|q: int| 0 <= q < k ==> #[trigger] samples@[q] == XmSampleInfo::zero(),
                decreases count - k,
            {
                samples.push(XmSampleInfo::new());
                k += 1;
            }
            instruments.push(XmInstrumentInfo { key_map: key_maps[i], samples });
            i += 1;
        }
        XmEncoder {
            ticks_per_row: initial_ticks_per_row,
            playback_engine_version,
            pitch_compatibility_mode,
            sample_offset_compatibility_mode,
            instruments,
        }
    }

    pub fn set_ticks_per_row(&mut self, ticks: i32)
        ensures
            final(self)@ == (XmEncoderModel { ticks_per_row: ticks, ..old(self)@ }),
    {
        self.ticks_per_row = ticks;
    }

    pub fn ticks_per_row(&self) -> (r: i32)
        ensures
            r == self@.ticks_per_row,
    {
        self.ticks_per_row
    }

    /// Records a sample's base-note/finetune split and its length in frames. XM pitch always
    /// refers to the NTSC C-2 frequency: `pitch_units` is measured against it (see
    /// [`crate::common::sample_properties_from_pitch`]).
    pub fn store_sample_info(
        &mut self,
        instrument_index: usize,
        sample_index: usize,
        encoded_length_bytes: i64,
        pitch_units: i32,
        channels: u32,
        bits_per_sample: u32,
        renoise_base_note: i32,
        renoise_fine_tuning: i32,
        transpose: i32,
    )
        requires
            instrument_index < old(self)@.instruments.len(),
            sample_index < old(self)@.instruments[instrument_index as int].samples.len(),
            channels > 0,
            sample_properties_defined(pitch_units as int, renoise_base_note as int, transpose as int, renoise_fine_tuning as int),
        ensures
            ({
                let props = sample_properties_spec(pitch_units as int, renoise_base_note as int, transpose as int, renoise_fine_tuning as int);
                let old_inst = old(self)@.instruments[instrument_index as int];
                final(self)@ == (XmEncoderModel {
                    instruments: old(self)@.instruments.update(instrument_index as int, XmInstrumentModel {
                        samples: old_inst.samples.update(sample_index as int, XmSampleInfo {
                            related_note: props.relative_tone,
                            fine_tune: props.fine_tune,
                            length: ((if bits_per_sample > 8 { (encoded_length_bytes as u64) / 2 } else { encoded_length_bytes as u64 }) / (channels as u64)) as i32,
                        }),
                        ..old_inst
                    }),
                    ..old(self)@
                })
            }),
    {
        let real_length = calculate_sample_length(encoded_length_bytes as u64, bits_per_sample, channels);
        let props = sample_properties_from_pitch(pitch_units, renoise_base_note, transpose, renoise_fine_tuning);
        let info = XmSampleInfo { related_note: props.relative_tone, fine_tune: props.fine_tune, length: real_length as i32 };
        let key_map = self.instruments[instrument_index].key_map;
        let mut samples = self.instruments[instrument_index].samples.clone();
        proof {
            assert(samples@ =~= old(self).instruments@[instrument_index as int].samples@);
        }
        samples.set(sample_index, info);
        let ghost before = self.instruments@;
        self.instruments.set(instrument_index, XmInstrumentInfo { key_map, samples });
        proof {
            assert(self@.instruments =~= old(self)@.instruments.update(instrument_index as int, instrument_model(self.instruments@[instrument_index as int])));
        }
    }

    pub fn sample_base_note(&self, instrument_index: usize, sample_index: usize) -> (r: i32)
        requires
            instrument_index < self@.instruments.len(),
            sample_index < self@.instruments[instrument_index as int].samples.len(),
        ensures
            r == self@.instruments[instrument_index as int].samples[sample_index as int].related_note,
    {
        self.instruments[instrument_index].samples[sample_index].related_note
    }

    pub fn sample_fine_tune(&self, instrument_index: usize, sample_index: usize) -> (r: i32)
        requires
            instrument_index < self@.instruments.len(),
            sample_index < self@.instruments[instrument_index as int].samples.len(),
        ensures
            r == self@.instruments[instrument_index as int].samples[sample_index as int].fine_tune,
    {
        self.instruments[instrument_index].samples[sample_index].fine_tune
    }

    pub fn num_instruments(&self) -> (r: usize)
        ensures
            r == self@.instruments.len(),
    {
        self.instruments.len()
    }

    /// The number of instruments, and of samples of instrument `instrument_index`.
    pub fn sample_count(&self, instrument_index: usize) -> (r: (usize, usize))
        requires
            instrument_index < self@.instruments.len(),
        ensures
            r.0 == self@.instruments.len(),
            r.1 == self@.instruments[instrument_index as int].samples.len(),
    {
        (self.instruments.len(), self.instruments[instrument_index].samples.len())
    }

    /// The sample slot `note` (1-based) plays on 1-based `instrument`.
    pub fn played_sample_from_keymap(&self, note: u8, instrument: u8) -> (r: u8)
        requires
            self@.played_sample_defined(note as int, instrument as int),
        ensures
            r as int == self@.played_sample(note as int, instrument as int),
    {
        let key_map = &self.instruments[(instrument - 1) as usize].key_map;
        let k = (note - 1) as usize;
        if k < key_map.len() {
            match key_map[k] {
                Some(s) => s,
                None => 0,
            }
        } else {
            0
        }
    }

    pub(crate) fn sample_length_frames(&self, xm_note: u8, xm_instrument: u8) -> (r: i32)
        requires
            self@.sample_length_frames_defined(xm_note as int, xm_instrument as int),
        ensures
            r as int == self@.sample_length_frames(xm_note as int, xm_instrument as int),
    {
        if xm_note == 0 || xm_instrument == 0 {
            return 0;
        }
        let used = self.played_sample_from_keymap(xm_note, xm_instrument) as usize;
        let samples = &self.instruments[(xm_instrument - 1) as usize].samples;
        if used < samples.len() { samples[used].length } else { 0 }
    }
}

impl XmEncoder {
    /// The command character and hex digit of a two-character column value (the digit is 0 when
    /// the second character is not hexadecimal).
    fn column_parts(column: &str) -> (r: Option<(char, i32)>)
        ensures
            column@.len() < 2 ==> r is None,
            column@.len() >= 2 ==> r == Some((column@[0], match hex_digit_value(column@[1]) { Some(v) => v as i32, None => 0i32 })),
    {
        if column.unicode_len() < 2 {
            return None;
        }
        let command = column.get_char(0);
        let value = match hex_digit(column.get_char(1)) {
            Some(v) => v as i32,
            None => 0,
        };
        Some((command, value))
    }

    /// Volume column of a Renoise volume value.
    pub fn volume_column_effect_from_volume(&self, xrns_col_vol_eff: &str) -> (r: u8)
        ensures
            r == self@.volume_column_from_volume(xrns_col_vol_eff@),
    {
        let (command, value) = match Self::column_parts(xrns_col_vol_eff) {
            Some(p) => p,
            None => return 0,
        };
        if '0' <= command && command <= '8' {
            match parse_hex_i32(xrns_col_vol_eff) {
                Some(h) => xm::set_volume_volume_column(h),
                None => 0,
            }
        } else if command == 'I' {
            xm::volume_up_volume_column(value, self.ticks_per_row)
        } else if command == 'O' {
            xm::volume_down_volume_column(value, self.ticks_per_row)
        } else {
            0
        }
    }

    /// Volume column of a Renoise panning value.
    pub fn volume_column_effect_from_panning(&self, xrns_col_pan_eff: &str) -> (r: u8)
        ensures
            r == self@.volume_column_from_panning(xrns_col_pan_eff@),
    {
        let (command, value) = match Self::column_parts(xrns_col_pan_eff) {
            Some(p) => p,
            None => return 0,
        };
        if '0' <= command && command <= '8' {
            match parse_hex_i32(xrns_col_pan_eff) {
                Some(h) => xm::set_panning_volume_column(h),
                None => 0,
            }
        } else if command == 'J' {
            xm::pan_slide_left_volume_column(value, self.ticks_per_row)
        } else if command == 'K' {
            xm::pan_slide_right_volume_column(value, self.ticks_per_row)
        } else {
            0
        }
    }

    fn get_sample_commands(&self, command: char, value: i32, xm_note: u8, xm_instrument: u8) -> (r: (u8, u8))
        requires
            self@.sample_commands_defined(command, value as int, xm_note as int, xm_instrument as int),
        ensures
            r == self@.sample_commands(command, value as int, xm_note as int, xm_instrument as int),
    {
        let ticks = self.ticks_per_row;
        let pitch_compat = self.pitch_compatibility_mode;
        if command == 'A' {
            shared::arpeggio(value)
        } else if command == 'U' {
            match xm::portamento(1, value, ticks, false, pitch_compat) { Ok(c) => c, Err(_) => (0, 0) }
        } else if command == 'D' {
            match xm::portamento(2, value, ticks, false, pitch_compat) { Ok(c) => c, Err(_) => (0, 0) }
        } else if command == 'M' {
            shared::set_volume(value)
        } else if command == 'G' {
            match xm::tone_portamento(value, ticks, false, pitch_compat) { Ok(c) => c, Err(_) => (0, 0) }
        } else if command == 'I' {
            shared::volume_up(value, ticks)
        } else if command == 'O' {
            shared::volume_down(value, ticks)
        } else if command == 'P' {
            shared::set_panning(value)
        } else if command == 'S' {
            let sample_size = self.sample_length_frames(xm_note, xm_instrument);
            shared::set_sample_offset(value, sample_size, self.sample_offset_compatibility_mode)
        } else if command == 'B' {
            xm::play_sample_backward()
        } else if command == 'Q' {
            shared::note_delay(value)
        } else if command == 'R' {
            xm::multi_retrig(value)
        } else if command == 'V' {
            shared::vibrato(value)
        } else if command == 'T' {
            shared::tremolo(value)
        } else {
            (0, 0)
        }
    }

    fn get_global_commands(&self, command: char, value: i32) -> (r: (u8, u8))
        ensures
            r == self@.global_commands(command, value as int),
    {
        if command == 'T' {
            xm::set_tempo(value)
        } else if command == 'L' {
            if self.playback_engine_version == 1 { shared::set_speed(value) } else { (0, 0) }
        } else if command == 'K' {
            shared::set_speed(value)
        } else if command == 'B' {
            shared::pattern_break(value)
        } else if command == 'D' {
            shared::pattern_delay(value)
        } else {
            (0, 0)
        }
    }

    /// Converts an effect-column command.
    pub fn get_xm_effect(&self, xrns_eff_num: &str, xrns_eff_val: &str, xm_note: u8, xm_instrument: u8) -> (r: Result<(u8, u8), Error>)
        requires
            self@.xm_effect_defined(xrns_eff_num@, xrns_eff_val@, xm_note as int, xm_instrument as int),
        ensures
            r is Ok <==> self@.xm_effect(xrns_eff_num@, xrns_eff_val@, xm_note as int, xm_instrument as int) is Some,
            r matches Ok(c) ==> self@.xm_effect(xrns_eff_num@, xrns_eff_val@, xm_note as int, xm_instrument as int) == Some(c),
            xrns_eff_num@.len() == 0 ==> r == Err::<(u8, u8), Error>(Error::Conversion(ConversionError::EmptyEffectNumber)),
            xrns_eff_num@.len() == 1 ==> r == Err::<(u8, u8), Error>(Error::Conversion(ConversionError::TruncatedEffectNumber)),
            xrns_eff_num@.len() >= 2 && parse_hex_i32_spec(xrns_eff_val@) is None
                ==> (r matches Err(Error::Conversion(ConversionError::InvalidEffectValue(v))) && v@ == xrns_eff_val@),
    {
        let n = xrns_eff_num.unicode_len();
        if n == 0 {
            return Err(Error::Conversion(ConversionError::EmptyEffectNumber));
        }
        let eff_type = xrns_eff_num.get_char(0);
        if n == 1 {
            return Err(Error::Conversion(ConversionError::TruncatedEffectNumber));
        }
        let command = xrns_eff_num.get_char(1);
        let value = match parse_hex_i32(xrns_eff_val) {
            Some(v) => v,
            None => return Err(Error::Conversion(ConversionError::InvalidEffectValue(xrns_eff_val.to_owned()))),
        };
        if eff_type == '0' {
            Ok(self.get_sample_commands(command, value, xm_note, xm_instrument))
        } else if eff_type == 'Z' {
            Ok(self.get_global_commands(command, value))
        } else {
            Ok((0, 0))
        }
    }

    /// Converts a master-track command.
    pub fn get_commands_from_master_track(&self, xrns_eff_num: &str, xrns_eff_val: &str, parse_only_global_volume: bool) -> (r: Result<(u8, u8), Error>)
        ensures
            r is Ok <==> self@.master_track_command(xrns_eff_num@, xrns_eff_val@, parse_only_global_volume) is Some,
            r matches Ok(c) ==> self@.master_track_command(xrns_eff_num@, xrns_eff_val@, parse_only_global_volume) == Some(c),
            xrns_eff_num@.len() == 0 ==> r == Err::<(u8, u8), Error>(Error::Conversion(ConversionError::EmptyEffectNumber)),
            xrns_eff_num@.len() == 1 ==> r == Err::<(u8, u8), Error>(Error::Conversion(ConversionError::TruncatedEffectNumber)),
            xrns_eff_num@.len() >= 2 && parse_hex_i32_spec(xrns_eff_val@) is None
                ==> (r matches Err(Error::Conversion(ConversionError::InvalidEffectValue(v))) && v@ == xrns_eff_val@),
    {
        let n = xrns_eff_num.unicode_len();
        if n == 0 {
            return Err(Error::Conversion(ConversionError::EmptyEffectNumber));
        }
        let command_type = xrns_eff_num.get_char(0);
        if n == 1 {
            return Err(Error::Conversion(ConversionError::TruncatedEffectNumber));
        }
        let command = xrns_eff_num.get_char(1);
        let value = match parse_hex_i32(xrns_eff_val) {
            Some(v) => v,
            None => return Err(Error::Conversion(ConversionError::InvalidEffectValue(xrns_eff_val.to_owned()))),
        };
        if command_type == '0' {
            if command == 'M' {
                Ok(xm::set_global_volume(value))
            } else if command == 'I' {
                Ok(xm::global_volume_slide_up(value, self.ticks_per_row))
            } else if command == 'O' {
                Ok(xm::global_volume_slide_down(value, self.ticks_per_row))
            } else {
                Ok((0, 0))
            }
        } else if command_type == 'Z' {
            if parse_only_global_volume { Ok((0, 0)) } else { Ok(self.get_global_commands(command, value)) }
        } else {
            Ok((0, 0))
        }
    }

    fn transpose_vol_pan_to_effect(&self, command: char, value: i32) -> (r: (u8, u8))
        requires
            0 <= value < 16,
        ensures
            r == self@.vol_pan_to_effect(command, value as int),
    {
        let ticks = self.ticks_per_row;
        let pitch_compat = self.pitch_compatibility_mode;
        if command == 'U' {
            match xm::transpose_portamento_up_vol_pan_column(value, ticks, pitch_compat) { Ok(c) => c, Err(_) => (0, 0) }
        } else if command == 'D' {
            match xm::transpose_portamento_down_vol_pan_column(value, ticks, pitch_compat) { Ok(c) => c, Err(_) => (0, 0) }
        } else if command == 'G' {
            match xm::transpose_glide_vol_pan_column(value, ticks, pitch_compat) { Ok(c) => c, Err(_) => (0, 0) }
        } else if command == 'B' {
            xm::transpose_play_sample_direction_vol_pan_column(value)
        } else if command == 'Q' {
            shared::note_delay(value)
        } else if command == 'R' {
            shared::retrig_note(value)
        } else if command == 'C' {
            shared::note_cut(value)
        } else {
            (0, 0)
        }
    }

    /// A volume-column value moved to the effect column.
    pub fn transpose_volume_to_command_effect(&self, xrns_col_vol_eff: &str) -> (r: (u8, u8))
        requires
            self@.volume_to_effect_defined(xrns_col_vol_eff@),
        ensures
            r == self@.volume_to_effect(xrns_col_vol_eff@),
    {
        let (command, value) = match Self::column_parts(xrns_col_vol_eff) {
            Some(p) => p,
            None => return (0, 0),
        };
        let ticks = self.ticks_per_row;
        if '0' <= command && command <= '8' {
            match parse_hex_i32(xrns_col_vol_eff) {
                Some(h) => shared::transpose_set_volume_from_volume(h),
                None => (0, 0),
            }
        } else if command == 'I' {
            shared::transpose_volume_slide_up_from_volume(value, ticks)
        } else if command == 'O' {
            shared::transpose_volume_slide_down_from_volume(value, ticks)
        } else {
            self.transpose_vol_pan_to_effect(command, value)
        }
    }

    /// A panning-column value moved to the effect column.
    pub fn transpose_panning_to_command_effect(&self, xrns_col_pan_eff: &str) -> (r: (u8, u8))
        ensures
            r == self@.panning_to_effect(xrns_col_pan_eff@),
    {
        let (command, value) = match Self::column_parts(xrns_col_pan_eff) {
            Some(p) => p,
            None => return (0, 0),
        };
        let ticks = self.ticks_per_row;
        if '0' <= command && command <= '8' {
            match parse_hex_i32(xrns_col_pan_eff) {
                Some(h) => shared::transpose_set_panning_from_panning(h),
                None => (0, 0),
            }
        } else if command == 'J' {
            xm::transpose_panning_slide_left(value, ticks)
        } else if command == 'K' {
            xm::transpose_panning_slide_right(value, ticks)
        } else {
            self.transpose_vol_pan_to_effect(command, value)
        }
    }

    /// A delay-column value as an `EDx` note delay, only when it delays at all.
    pub fn transpose_delay_to_command_effect(&self, xrns_col_delay: &str) -> (r: (u8, u8))
        requires
            self@.delay_to_effect_defined(xrns_col_delay@),
        ensures
            r == self@.delay_to_effect(xrns_col_delay@),
    {
        let value = match parse_hex_i32(xrns_col_delay) {
            Some(v) => v,
            None => return (0, 0),
        };
        let product = value * self.ticks_per_row;
        let mut result = crate::numeric::round_div_sat(product as i64, 255);
        assert(-0x0100_0000 <= round_div(product as int, 255) <= 0x0100_0000) by {
            let a = product as int;
            let m = (2 * crate::numeric::abs(a) + 255) / (510int);
            assert(0 <= m <= 0x0100_0000) by (nonlinear_arith)
                requires m == (2 * crate::numeric::abs(a) + 255) / (510int), 0 <= crate::numeric::abs(a) <= 0x8000_0000;
        }
        if result == self.ticks_per_row {
            result -= 1;
        }
        if result > 0 { shared::note_delay(result) } else { (0, 0) }
    }
}

} // verus!
