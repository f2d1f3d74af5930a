//! Stateful per-channel MOD encoding: the Amiga-period portamento state machine,
//! the three distinct note lookups of the format, and the tables that map Renoise effects to MOD
//! effects.
use vstd::prelude::*;
use vstd::string::*;

use crate::commands;
use crate::commands::{
    arpeggio_cmd, note_cut_cmd, note_delay_cmd, pattern_delay_cmd, portamento_cmd,
    portamento_defined, retrig_note_cmd, sample_offset_defined, sample_offset_value,
    set_panning_cmd, set_volume_cmd, set_volume_from_volume_cmd, tone_portamento_cmd,
    volume_down_cmd, volume_up_cmd,
};
use crate::common::{
    calculate_sample_length, fine_volume_closer_defined, sample_properties_defined,
    sample_properties_from_pitch, sample_properties_spec, VolumeScalingMode,
};
use crate::error::{ConversionError, Error};
use crate::mod_format::period::{
    lemma_period_bounds,
    is_note_in_range, note_in_range, note_name_period_index,
    parse_note_name_parts, parse_note_name_to_period_index, ProTrackerCompatibility,
    PERIODS_RANGE,
};
use crate::numeric::{max, round_div, saturate_i32, trunc_div};
use crate::text::{note_name_parts, hex_digit, hex_digit_value, note_slice_splits_char, parse_hex_i32, parse_hex_i32_spec};

verus! {

#[derive(Debug, Clone, Copy)]
pub struct ModSettings {
    pub pro_tracker_compatibility: ProTrackerCompatibility,
    pub ntsc_mode: bool,
    /// Accepted range 0-4.
    pub portamento_loss_threshold: i32,
    /// MOD supports `Disabled`/`Sample`; `Column` is refused by [`ModSettings::validate`].
    pub volume_scaling_mode: VolumeScalingMode,
}

impl ModSettings {
    pub open spec fn is_valid(&self) -> bool {
        &&& self.volume_scaling_mode != VolumeScalingMode::Column
        &&& 0 <= self.portamento_loss_threshold <= 4
    }

    /// Refuses column volume scaling, then a loss threshold outside `0..=4`.
    pub fn validate(&self) -> (r: Result<(), Error>)
        ensures
            r is Ok <==> self.is_valid(),
            self.volume_scaling_mode == VolumeScalingMode::Column
                ==> r == Err::<(), Error>(Error::Conversion(ConversionError::InvalidVolumeScalingMode)),
            self.volume_scaling_mode != VolumeScalingMode::Column && !self.is_valid()
                ==> r == Err::<(), Error>(Error::Conversion(ConversionError::InvalidPortamentoLossThreshold)),
    {
        if self.volume_scaling_mode == VolumeScalingMode::Column {
            return Err(Error::Conversion(ConversionError::InvalidVolumeScalingMode));
        }
        if !(0 <= self.portamento_loss_threshold && self.portamento_loss_threshold <= 4) {
            return Err(Error::Conversion(ConversionError::InvalidPortamentoLossThreshold));
        }
        Ok(())
    }
}

/// Portamento state of one hardware channel.
#[derive(Debug, Clone, Copy, PartialEq, Eq, Structural)]
pub struct ChannelInfo {
    pub reached_note: i32,
    pub tone_portamento_note: i32,
    pub tone_portamento_period: i32,
    pub current_pitch: i32,
    pub current_sample: i32,
    pub current_period: i32,
    pub last_portamento_command: i32,
    pub last_portamento_value: i32,
    pub portamento_direction_flag: i32,
}

impl ChannelInfo {
    pub open spec fn initial() -> ChannelInfo {
        ChannelInfo {
            reached_note: -1i32,
            tone_portamento_note: 0,
            tone_portamento_period: 0,
            current_pitch: 0,
            current_sample: -1i32,
            current_period: 0,
            last_portamento_command: 0,
            last_portamento_value: 0,
            portamento_direction_flag: 0,
        }
    }

    pub fn new() -> (r: ChannelInfo)
        ensures
            r == ChannelInfo::initial(),
    {
        ChannelInfo {
            reached_note: -1,
            tone_portamento_note: 0,
            tone_portamento_period: 0,
            current_pitch: 0,
            current_sample: -1,
            current_period: 0,
            last_portamento_command: 0,
            last_portamento_value: 0,
            portamento_direction_flag: 0,
        }
    }
}

#[derive(Debug, Clone, Copy, PartialEq, Eq, Structural)]
pub struct ModInstrumentInfo {
    /// Signed relative-tone offset added to every note the instrument plays.
    pub related_note: i32,
    pub fine_tune: i32,
    /// Encoded (resampled, mono, 8-bit) sample length in bytes.
    pub length: i32,
    /// Source sample length in frames, before resampling.
    pub original_length: i32,
}

/// A loop point of `value` frames at the source rate, rescaled to the encoded sample of
/// `info` and halved (MOD stores loop points in words); 0 for an empty sample.
pub open spec fn loop_value_of(info: ModInstrumentInfo, value: int) -> i32 {
    if info.length > 0 {
        (value * info.length / max(info.original_length as int, 1) / 2) as i32
    } else {
        0i32
    }
}

impl ModInstrumentInfo {
    pub open spec fn zero() -> ModInstrumentInfo {
        ModInstrumentInfo { related_note: 0, fine_tune: 0, length: 0, original_length: 0 }
    }
}

impl Default for ModInstrumentInfo {
    fn default() -> (r: ModInstrumentInfo)
        ensures
            r == ModInstrumentInfo::zero(),
    {
        ModInstrumentInfo { related_note: 0, fine_tune: 0, length: 0, original_length: 0 }
    }
}

/// MOD has exactly four hardware channels' worth of portamento state, whatever the number of
/// note columns of the song.
pub const NUM_HARDWARE_CHANNELS: usize = 4;

pub struct ModEncoder {
    channel_data: Vec<ChannelInfo>,
    settings: ModSettings,
    ticks_per_row: i32,
    playback_engine_version: i32,
    pitch_compatibility_mode: bool,
    sample_offset_compatibility_mode: bool,
    instruments: Vec<ModInstrumentInfo>,
}

/// The state of a [`ModEncoder`].
pub struct ModEncoderModel {
    pub channels: Seq<ChannelInfo>,
    pub settings: ModSettings,
    pub ticks_per_row: i32,
    pub playback_engine_version: i32,
    pub pitch_compatibility_mode: bool,
    pub sample_offset_compatibility_mode: bool,
    pub instruments: Seq<ModInstrumentInfo>,
}

impl View for ModEncoder {
    type V = ModEncoderModel;

    closed spec fn view(&self) -> ModEncoderModel {
        ModEncoderModel {
            channels: self.channel_data@,
            settings: self.settings,
            ticks_per_row: self.ticks_per_row,
            playback_engine_version: self.playback_engine_version,
            pitch_compatibility_mode: self.pitch_compatibility_mode,
            sample_offset_compatibility_mode: self.sample_offset_compatibility_mode,
            instruments: self.instruments@,
        }
    }
}

/// Whether the effect column is a glide (`"0G"`), or else the volume/panning column starts with
/// `'G'`; `None` when a column glide meets any effect-column command.
pub open spec fn tone_portamento_triggered(effect: Option<Seq<char>>, volume: Option<Seq<char>>, panning: Option<Seq<char>>) -> Option<bool> {
    let effect_glide = match effect {
        Some(e) => e.len() >= 2 && e[0] == '0' && e[1] == 'G',
        None => false,
    };
    if effect_glide {
        Some(true)
    } else {
        let volume_glide = match volume { Some(v) => v.len() >= 1 && v[0] == 'G', None => false };
        let panning_glide = match panning { Some(p) => p.len() >= 1 && p[0] == 'G', None => false };
        if volume_glide || panning_glide {
            if effect is Some { None } else { Some(true) }
        } else {
            Some(false)
        }
    }
}

/// `(period[index], period[index + 1])`, the two periods a pitch between two notes lies between.
pub open spec fn periods_pair(index: int) -> Option<(i32, i32)> {
    if 0 <= index < 71 { Some((PERIODS_RANGE@[index], PERIODS_RANGE@[index + 1])) } else { None }
}

/// Tick-weighted period change a just-emitted pitch command applies.
pub open spec fn effective_portamento(command: u8, value: u8, ticks: int) -> int {
    if 0x01 <= command <= 0x03 {
        value * (ticks - 1)
    } else if command == 0x0E {
        (value % 16) as int
    } else {
        0
    }
}

pub open spec fn effective_portamento_defined(command: u8, value: u8, ticks: int) -> bool {
    0x01 <= command <= 0x03 ==> (i32::MIN <= ticks - 1 && i32::MIN <= value * (ticks - 1) <= i32::MAX)
}

/// Euclidean remainder of a pitch by 16: its position between two semitones.
pub open spec fn relative_pitch(pitch: int) -> int {
    pitch % 16
}

/// The Renoise note reached by a pitch offset (`1/16` semitone units) from `reached_note`.
pub open spec fn reached_renoise_note(pitch: int, reached_note: int) -> int {
    saturate_i32(trunc_div(pitch + 16 * reached_note, 16))
}

impl ModEncoderModel {
    pub open spec fn wf(self) -> bool {
        self.channels.len() == NUM_HARDWARE_CHANNELS
    }

    pub open spec fn compat(self) -> ProTrackerCompatibility {
        self.settings.pro_tracker_compatibility
    }

    pub open spec fn tone_to_add(self, sample_number: int) -> int {
        if sample_number >= 0 { self.instruments[sample_number].related_note as int } else { 0 }
    }

    pub open spec fn sample_known(self, sample_number: int) -> bool {
        sample_number >= 0 ==> sample_number < self.instruments.len()
    }

    /// Period-table index of absolute Renoise note `note` played by instrument `sample_number`
    /// (`None` when out of range). Negative notes give index 0.
    pub open spec fn mod_note_index(self, note: int, sample_number: int) -> Option<i32> {
        if note < 0 {
            Some(0)
        } else {
            let final_note = note - 24 + self.tone_to_add(sample_number);
            if note_in_range(final_note, self.compat()) { Some(final_note as i32) } else { None }
        }
    }

    pub open spec fn mod_note_index_defined(self, note: int, sample_number: int) -> bool {
        &&& self.sample_known(sample_number)
        &&& note >= 0 ==> i32::MIN <= note - 24 + self.tone_to_add(sample_number) <= i32::MAX
    }

    /// Triggering note name `note` on `channel`: the new channel states and the note's period
    /// (`Some(0)` for a name that is not a note, `None` for a note out of range).
    pub open spec fn trigger(self, note: Seq<char>, sample_number: int, channel: int, is_tone_portamento: bool) -> (Seq<ChannelInfo>, Option<i32>) {
        match note_name_parts(note) {
            None => (self.channels, Some(0)),
            Some((octave, offset)) => {
                let final_index = (octave - 2) * 12 + offset + self.tone_to_add(sample_number);
                if !note_in_range(final_index, self.compat()) {
                    (self.channels, None)
                } else {
                    let value = PERIODS_RANGE@[final_index];
                    let renoise_note = (octave * 12 + offset) as i32;
                    let ch = self.channels[channel];
                    let ch = if is_tone_portamento {
                        ChannelInfo { current_sample: sample_number as i32, tone_portamento_note: renoise_note, tone_portamento_period: value, ..ch }
                    } else {
                        ChannelInfo {
                            current_sample: sample_number as i32,
                            current_pitch: 0,
                            current_period: value,
                            tone_portamento_period: value,
                            tone_portamento_note: renoise_note,
                            reached_note: renoise_note,
                            ..ch
                        }
                    };
                    (self.channels.update(channel, ch), Some(value))
                }
            },
        }
    }

    pub open spec fn trigger_defined(self, note: Seq<char>, sample_number: int, channel: int) -> bool {
        &&& !note_slice_splits_char(note)
        &&& self.sample_known(sample_number)
        &&& i32::MIN <= sample_number <= i32::MAX
        &&& note_name_parts(note) matches Some((octave, offset)) ==> {
            let final_index = (octave - 2) * 12 + offset + self.tone_to_add(sample_number);
            &&& i32::MIN <= final_index <= i32::MAX
            &&& note_in_range(final_index, self.compat()) ==> 0 <= channel < self.channels.len()
        }
    }

    /// The speed multiplier pitch compatibility mode applies to a slide value.
    pub open spec fn real_slide_value(self, value: int, ignore_pitch_compat: bool) -> int {
        if !ignore_pitch_compat && self.pitch_compatibility_mode {
            value * (if self.ticks_per_row > 1 { self.ticks_per_row - 1 } else { 1 })
        } else {
            value
        }
    }

    /// Tone portamento towards the channel's target: new channel states and the period delta
    /// (`None` when refused).
    pub open spec fn tone_portamento_delta(self, value: int, channel: int, is_note_triggered: bool, ignore_pitch_compat: bool) -> (Seq<ChannelInfo>, Option<i32>) {
        let ch = self.channels[channel];
        let value = if value == 0 && ch.last_portamento_value > 0 { ch.last_portamento_value as int } else { value };
        if value == 0 || ch.current_period == ch.tone_portamento_period {
            (self.channels, if is_note_triggered { Some(0) } else { None })
        } else {
            let real_value = self.real_slide_value(value, ignore_pitch_compat);
            let direction = if ch.current_period < ch.tone_portamento_period { -1int } else { 1int };
            let pitch = ch.current_pitch + real_value * direction;
            let note = reached_renoise_note(pitch, ch.reached_note as int);
            match self.mod_note_index(note, ch.current_sample as int) {
                None => (self.channels, None),
                Some(mod_note) => if ch.current_period == 0 {
                    (self.channels, None)
                } else {
                    match periods_pair(mod_note as int) {
                        None => (self.channels, None),
                        Some((first, second)) => {
                            let rp = relative_pitch(pitch);
                            let target = first - trunc_div(rp * (first - second), 16);
                            let portamento = (ch.current_period - target) * direction;
                            let new_ch = ChannelInfo {
                                reached_note: note as i32,
                                current_pitch: rp as i32,
                                last_portamento_command: 0x03,
                                last_portamento_value: value as i32,
                                portamento_direction_flag: direction as i32,
                                ..ch
                            };
                            (self.channels.update(channel, new_ch), Some(portamento as i32))
                        },
                    }
                },
            }
        }
    }

    pub open spec fn tone_portamento_delta_defined(self, value: int, channel: int, ignore_pitch_compat: bool) -> bool {
        &&& 0 <= channel < self.channels.len()
        &&& {
            let ch = self.channels[channel];
            let value = if value == 0 && ch.last_portamento_value > 0 { ch.last_portamento_value as int } else { value };
            (value != 0 && ch.current_period != ch.tone_portamento_period) ==> {
                let real_value = self.real_slide_value(value, ignore_pitch_compat);
                let direction = if ch.current_period < ch.tone_portamento_period { -1int } else { 1int };
                let pitch = ch.current_pitch + real_value * direction;
                let note = reached_renoise_note(pitch, ch.reached_note as int);
                &&& i32::MIN <= real_value <= i32::MAX
                &&& i32::MIN <= real_value * direction <= i32::MAX
                &&& i32::MIN <= pitch <= i32::MAX
                &&& self.mod_note_index_defined(note, ch.current_sample as int)
                &&& self.mod_note_index(note, ch.current_sample as int) matches Some(mod_note)
                    ==> (ch.current_period != 0
                    ==> (periods_pair(mod_note as int) matches Some((first, second))
                    ==> {
                        let target = first - trunc_div(relative_pitch(pitch) * (first - second), 16);
                        &&& i32::MIN <= ch.current_period - target <= i32::MAX
                        &&& i32::MIN <= (ch.current_period - target) * direction <= i32::MAX
                    }))
            }
        }
    }

    /// Pitch slide up (`'U'`) or down (`'D'`) from the channel's current pitch: new channel
    /// states and the period delta (`None` when refused; a zero delta is refused after the state
    /// has been updated).
    pub open spec fn portamento_delta(self, command: char, value: int, channel: int, ignore_pitch_compat: bool) -> (Seq<ChannelInfo>, Option<i32>) {
        let ch = self.channels[channel];
        let value = if value == 0 && ch.last_portamento_value > 0 { ch.last_portamento_value as int } else { value };
        if command != 'U' && command != 'D' {
            (self.channels, None)
        } else {
            let direction = if command == 'U' { 1int } else { -1int };
            let portamento_command = if command == 'U' { 1int } else { 2int };
            let real_value = self.real_slide_value(value, ignore_pitch_compat);
            let pitch = ch.current_pitch + real_value * direction;
            let note = reached_renoise_note(pitch, ch.reached_note as int);
            match self.mod_note_index(note, ch.current_sample as int) {
                None => (self.channels, None),
                Some(mod_note) => if ch.current_period == 0 {
                    (self.channels, None)
                } else {
                    match periods_pair(mod_note as int) {
                        None => (self.channels, None),
                        Some((first, second)) => {
                            let rp = relative_pitch(pitch);
                            let target = first - trunc_div(rp * (first - second), 16);
                            let portamento = (ch.current_period - target) * direction;
                            let new_ch = ChannelInfo {
                                reached_note: note as i32,
                                current_pitch: rp as i32,
                                last_portamento_command: portamento_command as i32,
                                last_portamento_value: value as i32,
                                portamento_direction_flag: direction as i32,
                                ..ch
                            };
                            (self.channels.update(channel, new_ch), if portamento == 0 { None } else { Some(portamento as i32) })
                        },
                    }
                },
            }
        }
    }

    pub open spec fn portamento_delta_defined(self, command: char, value: int, channel: int, ignore_pitch_compat: bool) -> bool {
        &&& 0 <= channel < self.channels.len()
        &&& {
            let ch = self.channels[channel];
            let value = if value == 0 && ch.last_portamento_value > 0 { ch.last_portamento_value as int } else { value };
            (command == 'U' || command == 'D') ==> {
                let direction = if command == 'U' { 1int } else { -1int };
                let real_value = self.real_slide_value(value, ignore_pitch_compat);
                let pitch = ch.current_pitch + real_value * direction;
                let note = reached_renoise_note(pitch, ch.reached_note as int);
                &&& i32::MIN <= real_value <= i32::MAX
                &&& i32::MIN <= real_value * direction <= i32::MAX
                &&& i32::MIN <= pitch <= i32::MAX
                &&& self.mod_note_index_defined(note, ch.current_sample as int)
                &&& self.mod_note_index(note, ch.current_sample as int) matches Some(mod_note)
                    ==> (ch.current_period != 0
                    ==> (periods_pair(mod_note as int) matches Some((first, second))
                    ==> {
                        let target = first - trunc_div(relative_pitch(pitch) * (first - second), 16);
                        &&& i32::MIN <= ch.current_period - target <= i32::MAX
                        &&& i32::MIN <= (ch.current_period - target) * direction <= i32::MAX
                    }))
            }
        }
    }
}

/// Moves the channel's period by a slide of `portamento` in the direction of its last
/// portamento; a glide (`'G'`) stops at its target note.
pub open spec fn store_channel_period(channels: Seq<ChannelInfo>, portamento: int, command: char, channel: int) -> Seq<ChannelInfo> {
    let ch = channels[channel];
    let direction = -ch.portamento_direction_flag;
    let period = ch.current_period + portamento * direction;
    let overshoot = command == 'G' && ((direction > 0 && period > ch.tone_portamento_period)
        || (direction < 0 && period < ch.tone_portamento_period));
    let new_ch = if overshoot {
        ChannelInfo { current_period: ch.tone_portamento_period, reached_note: ch.tone_portamento_note, current_pitch: 0, ..ch }
    } else {
        ChannelInfo { current_period: period as i32, ..ch }
    };
    channels.update(channel, new_ch)
}

pub open spec fn store_channel_period_defined(channels: Seq<ChannelInfo>, portamento: int, channel: int) -> bool {
    &&& 0 <= channel < channels.len()
    &&& {
        let ch = channels[channel];
        let direction = -ch.portamento_direction_flag;
        &&& ch.portamento_direction_flag != i32::MIN
        &&& i32::MIN <= portamento * direction <= i32::MAX
        &&& i32::MIN <= ch.current_period + portamento * direction <= i32::MAX
    }
}



impl ModEncoderModel {
    pub open spec fn with_channels(self, channels: Seq<ChannelInfo>) -> ModEncoderModel {
        ModEncoderModel { channels, ..self }
    }

    /// A pitch slide (`num` 1 = up, 2 = down): the delta from the channel's pitch state, the
    /// command chosen for it, and the channel's period advanced by what that command does.
    pub open spec fn slide_step(self, num: int, command: char, value: int, channel: int, ignore_pitch_compat: bool) -> (Seq<ChannelInfo>, (u8, u8)) {
        let (channels, delta) = self.portamento_delta(command, value, channel, ignore_pitch_compat);
        match delta {
            None => (channels, (0u8, 0u8)),
            Some(delta) => {
                let ret = portamento_cmd(num, delta as int, self.ticks_per_row as int, self.settings.portamento_loss_threshold as int, self.pitch_compatibility_mode);
                (store_channel_period(channels, effective_portamento(ret.0, ret.1, self.ticks_per_row as int), command, channel), ret)
            },
        }
    }

    pub open spec fn slide_step_defined(self, num: int, command: char, value: int, channel: int, ignore_pitch_compat: bool) -> bool {
        &&& self.portamento_delta_defined(command, value, channel, ignore_pitch_compat)
        &&& {
            let (channels, delta) = self.portamento_delta(command, value, channel, ignore_pitch_compat);
            delta matches Some(delta) ==> {
                let ret = portamento_cmd(num, delta as int, self.ticks_per_row as int, self.settings.portamento_loss_threshold as int, self.pitch_compatibility_mode);
                &&& portamento_defined(num, delta as int, self.ticks_per_row as int, self.settings.portamento_loss_threshold as int, self.pitch_compatibility_mode)
                &&& effective_portamento_defined(ret.0, ret.1, self.ticks_per_row as int)
                &&& store_channel_period_defined(channels, effective_portamento(ret.0, ret.1, self.ticks_per_row as int), channel)
            }
        }
    }

    /// A glide towards the channel's target note.
    pub open spec fn glide_step(self, value: int, channel: int, is_note_triggered: bool, ignore_pitch_compat: bool) -> (Seq<ChannelInfo>, (u8, u8)) {
        let (channels, delta) = self.tone_portamento_delta(value, channel, is_note_triggered, ignore_pitch_compat);
        match delta {
            None => (channels, (0u8, 0u8)),
            Some(delta) => match tone_portamento_cmd(delta as int, self.ticks_per_row as int) {
                Err(_) => (channels, (0u8, 0u8)),
                Ok(ret) => (store_channel_period(channels, effective_portamento(ret.0, ret.1, self.ticks_per_row as int), 'G', channel), ret),
            },
        }
    }

    pub open spec fn glide_step_defined(self, value: int, channel: int, is_note_triggered: bool, ignore_pitch_compat: bool) -> bool {
        &&& self.tone_portamento_delta_defined(value, channel, ignore_pitch_compat)
        &&& {
            let (channels, delta) = self.tone_portamento_delta(value, channel, is_note_triggered, ignore_pitch_compat);
            delta matches Some(delta) ==> (tone_portamento_cmd(delta as int, self.ticks_per_row as int) matches Ok(ret) ==> {
                &&& effective_portamento_defined(ret.0, ret.1, self.ticks_per_row as int)
                &&& store_channel_period_defined(channels, effective_portamento(ret.0, ret.1, self.ticks_per_row as int), channel)
            })
        }
    }

    pub open spec fn offset_sample_size(self, sample_index: int) -> int {
        if sample_index > 0 { self.instruments[sample_index - 1].length as int } else { 0 }
    }

    /// Per-note Renoise command `'0' + command`. `sample_index` is the
    /// 1-based MOD sample number (0 = none).
    pub open spec fn sample_commands(self, command: char, value: int, sample_index: int, channel: int, is_note_triggered: bool) -> (Seq<ChannelInfo>, (u8, u8)) {
        let ticks = self.ticks_per_row as int;
        if command == 'A' { (self.channels, arpeggio_cmd(value)) }
        else if command == 'U' { self.slide_step(1, 'U', value, channel, false) }
        else if command == 'D' { self.slide_step(2, 'D', value, channel, false) }
        else if command == 'M' { (self.channels, set_volume_cmd(value)) }
        else if command == 'G' { self.glide_step(value, channel, is_note_triggered, false) }
        else if command == 'I' { (self.channels, volume_up_cmd(value, ticks)) }
        else if command == 'O' { (self.channels, volume_down_cmd(value, ticks)) }
        else if command == 'P' { (self.channels, set_panning_cmd(value)) }
        else if command == 'S' {
            (self.channels, (0x9u8, sample_offset_value(value, self.offset_sample_size(sample_index), self.sample_offset_compatibility_mode)))
        }
        else if command == 'Q' { (self.channels, note_delay_cmd(value)) }
        else if command == 'R' { (self.channels, retrig_note_cmd(value)) }
        else if command == 'V' { (self.channels, (0x04u8, value as u8)) }
        else if command == 'T' { (self.channels, (0x07u8, value as u8)) }
        else { (self.channels, (0u8, 0u8)) }
    }

    pub open spec fn sample_commands_defined(self, command: char, value: int, sample_index: int, channel: int, is_note_triggered: bool) -> bool {
        let ticks = self.ticks_per_row as int;
        &&& i32::MIN <= value <= i32::MAX
        &&& command == 'U' ==> self.slide_step_defined(1, 'U', value, channel, false)
        &&& command == 'D' ==> self.slide_step_defined(2, 'D', value, channel, false)
        &&& command == 'M' ==> value < i32::MAX
        &&& command == 'G' ==> self.glide_step_defined(value, channel, is_note_triggered, false)
        &&& (command == 'I' || command == 'O') ==> fine_volume_closer_defined(value, ticks)
        &&& command == 'S' ==> {
            &&& sample_index > 0 ==> sample_index - 1 < self.instruments.len()
            &&& sample_offset_defined(value, self.offset_sample_size(sample_index), self.sample_offset_compatibility_mode)
        }
    }

    /// Global Renoise command `'Z' + command`.
    pub open spec fn global_commands(self, command: char, value: int) -> (u8, u8) {
        if command == 'T' {
            if value <= 0x20 { (0u8, 0u8) } else { (0x0Fu8, value as u8) }
        } else if command == 'L' {
            if self.playback_engine_version == 1 { (0x0Fu8, value as u8) } else { (0u8, 0u8) }
        } else if command == 'K' {
            (0x0Fu8, value as u8)
        } else if command == 'B' {
            (0xDu8, value as u8)
        } else if command == 'D' {
            pattern_delay_cmd(value)
        } else {
            (0u8, 0u8)
        }
    }

    /// An effect-column command; `None` when the effect number has fewer than
    /// two characters or the value is not hexadecimal.
    pub open spec fn mod_effect(self, number: Seq<char>, value: Seq<char>, sample_index: int, channel: int, is_note_triggered: bool) -> (Seq<ChannelInfo>, Option<(u8, u8)>) {
        if number.len() < 2 {
            (self.channels, None)
        } else {
            match parse_hex_i32_spec(value) {
                None => (self.channels, None),
                Some(v) => if number[0] == '0' {
                    let (channels, ret) = self.sample_commands(number[1], v as int, sample_index, channel, is_note_triggered);
                    (channels, Some(ret))
                } else if number[0] == 'Z' {
                    (self.channels, Some(self.global_commands(number[1], v as int)))
                } else {
                    (self.channels, Some((0u8, 0u8)))
                },
            }
        }
    }

    pub open spec fn mod_effect_defined(self, number: Seq<char>, value: Seq<char>, sample_index: int, channel: int, is_note_triggered: bool) -> bool {
        (number.len() >= 2 && number[0] == '0' && parse_hex_i32_spec(value) is Some)
            ==> self.sample_commands_defined(number[1], parse_hex_i32_spec(value).unwrap() as int, sample_index, channel, is_note_triggered)
    }

    /// A master-track command: only global (`'Z'`) commands are converted.
    pub open spec fn master_track_command(self, number: Seq<char>, value: Seq<char>) -> Option<(u8, u8)> {
        if number.len() < 2 {
            None
        } else {
            match parse_hex_i32_spec(value) {
                None => None,
                Some(v) => if number[0] == 'Z' { Some(self.global_commands(number[1], v as int)) } else { Some((0u8, 0u8)) },
            }
        }
    }

    /// Volume/panning-column command with a single hex digit `value` moved to the effect column.
    pub open spec fn vol_pan_to_effect(self, command: char, value: int, channel: int, is_note_triggered: bool) -> (Seq<ChannelInfo>, (u8, u8)) {
        if command == 'U' { self.slide_step(1, 'U', value * 16, channel, true) }
        else if command == 'D' { self.slide_step(2, 'D', value * 16, channel, true) }
        else if command == 'G' { self.glide_step(value * 16, channel, is_note_triggered, true) }
        else if command == 'Q' { (self.channels, note_delay_cmd(value)) }
        else if command == 'R' { (self.channels, retrig_note_cmd(value)) }
        else if command == 'C' { (self.channels, note_cut_cmd(value)) }
        else { (self.channels, (0u8, 0u8)) }
    }

    pub open spec fn vol_pan_to_effect_defined(self, command: char, value: int, channel: int, is_note_triggered: bool) -> bool {
        &&& command == 'U' ==> self.slide_step_defined(1, 'U', value * 16, channel, true)
        &&& command == 'D' ==> self.slide_step_defined(2, 'D', value * 16, channel, true)
        &&& command == 'G' ==> self.glide_step_defined(value * 16, channel, is_note_triggered, true)
    }

    /// A volume-column value moved to the effect column.
    pub open spec fn volume_to_effect(self, column: Seq<char>, channel: int, is_note_triggered: bool) -> (Seq<ChannelInfo>, (u8, u8)) {
        if column.len() < 2 || hex_digit_value(column[1]) is None {
            (self.channels, (0u8, 0u8))
        } else {
            let command = column[0];
            let value = hex_digit_value(column[1]).unwrap();
            if '0' <= command && command <= '8' {
                match parse_hex_i32_spec(column) {
                    None => (self.channels, (0u8, 0u8)),
                    Some(h) => (self.channels, set_volume_from_volume_cmd(h as int)),
                }
            } else if command == 'I' {
                (self.channels, volume_up_cmd(value * 16, self.ticks_per_row as int))
            } else if command == 'O' {
                (self.channels, volume_down_cmd(value * 16, self.ticks_per_row as int))
            } else {
                self.vol_pan_to_effect(command, value, channel, is_note_triggered)
            }
        }
    }

    pub open spec fn volume_to_effect_defined(self, column: Seq<char>, channel: int, is_note_triggered: bool) -> bool {
        (column.len() >= 2 && hex_digit_value(column[1]) is Some) ==> {
            let command = column[0];
            let value = hex_digit_value(column[1]).unwrap();
            &&& (command == 'I' || command == 'O') ==> fine_volume_closer_defined(value * 16, self.ticks_per_row as int)
            &&& !('0' <= command && command <= '8') && command != 'I' && command != 'O'
                ==> self.vol_pan_to_effect_defined(command, value, channel, is_note_triggered)
        }
    }

    /// A delay-column value (`00-FF` of a row) as a note delay in ticks.
    pub open spec fn delay_to_effect(self, column: Seq<char>) -> (u8, u8) {
        match parse_hex_i32_spec(column) {
            None => (0u8, 0u8),
            Some(v) => {
                let ticks = self.ticks_per_row as int;
                let result = round_div(v * ticks, 255);
                let result = if result == ticks { result - 1 } else { result };
                if result > 0 { note_delay_cmd(result) } else { (0u8, 0u8) }
            },
        }
    }

    pub open spec fn delay_to_effect_defined(self, column: Seq<char>) -> bool {
        parse_hex_i32_spec(column) matches Some(v) ==> i32::MIN <= v * self.ticks_per_row <= i32::MAX
    }

    /// A panning-column value moved to the effect column: numeric panning and panning slides
    /// are not converted, because MOD panning acts on the whole channel.
    pub open spec fn panning_to_effect(self, column: Seq<char>, channel: int, is_note_triggered: bool) -> (Seq<ChannelInfo>, (u8, u8)) {
        if column.len() < 2 || hex_digit_value(column[1]) is None {
            (self.channels, (0u8, 0u8))
        } else {
            let command = column[0];
            if ('0' <= command && command <= '8') || command == 'J' || command == 'K' {
                (self.channels, (0u8, 0u8))
            } else {
                self.vol_pan_to_effect(command, hex_digit_value(column[1]).unwrap(), channel, is_note_triggered)
            }
        }
    }

    pub open spec fn panning_to_effect_defined(self, column: Seq<char>, channel: int, is_note_triggered: bool) -> bool {
        (column.len() >= 2 && hex_digit_value(column[1]) is Some) ==> {
            let command = column[0];
            !(('0' <= command && command <= '8') || command == 'J' || command == 'K')
                ==> self.vol_pan_to_effect_defined(command, hex_digit_value(column[1]).unwrap(), channel, is_note_triggered)
        }
    }
}

pub open spec fn opt_view(o: Option<&str>) -> Option<Seq<char>> {
    match o {
        Some(s) => Some(s@),
        None => None,
    }
}

impl ModEncoder {
    pub fn new(
        num_instruments: usize,
        initial_ticks_per_row: i32,
        settings: ModSettings,
        playback_engine_version: i32,
        pitch_compatibility_mode: bool,
        sample_offset_compatibility_mode: bool,
    ) -> (r: ModEncoder)
        ensures
            r@.wf(),
            forall|c: int| 0 <= c < 4 ==> #[trigger] r@.channels[c] == ChannelInfo::initial(),
            r@.instruments.len() == num_instruments,
            forall|i: int| 0 <= i < num_instruments ==> #[trigger] r@.instruments[i] == ModInstrumentInfo::zero(),
            r@.settings == settings,
            r@.ticks_per_row == initial_ticks_per_row,
            r@.playback_engine_version == playback_engine_version,
            r@.pitch_compatibility_mode == pitch_compatibility_mode,
            r@.sample_offset_compatibility_mode == sample_offset_compatibility_mode,
    {
        let mut channel_data: Vec<ChannelInfo> = Vec::new();
        let mut c: usize = 0;
        while c < NUM_HARDWARE_CHANNELS
            invariant
                c <= NUM_HARDWARE_CHANNELS,
                channel_data@.len() == c,
                forall|k: int| 0 <= k < c ==> #[trigger] channel_data@[k] == ChannelInfo::initial(),
            decreases NUM_HARDWARE_CHANNELS - c,
        {
            channel_data.push(ChannelInfo::new());
            c += 1;
        }
        let mut instruments: Vec<ModInstrumentInfo> = Vec::new();
        let mut i: usize = 0;
        while i < num_instruments
            invariant
                i <= num_instruments,
                instruments@.len() == i,
                forall|k: int| 0 <= k < i ==> #[trigger] instruments@[k] == ModInstrumentInfo::zero(),
            decreases num_instruments - i,
        {
            instruments.push(ModInstrumentInfo::default());
            i += 1;
        }
        ModEncoder {
            channel_data,
            settings,
            ticks_per_row: initial_ticks_per_row,
            playback_engine_version,
            pitch_compatibility_mode,
            sample_offset_compatibility_mode,
            instruments,
        }
    }

    pub fn set_ticks_per_row(&mut self, ticks: i32)
        ensures
            final(self)@ == (ModEncoderModel { ticks_per_row: ticks, ..old(self)@ }),
    {
        self.ticks_per_row = ticks;
    }

    pub fn ticks_per_row(&self) -> (r: i32)
        ensures
            r == self@.ticks_per_row,
    {
        self.ticks_per_row
    }

    pub fn num_instruments(&self) -> (r: usize)
        ensures
            r == self@.instruments.len(),
    {
        self.instruments.len()
    }

    /// Records the base-note/finetune split and the encoded and original sample lengths of a
    /// 0-based instrument. `pitch_units` is the sample rate's pitch offset from the Amiga C-2
    /// frequency (see [`crate::common::sample_properties_from_pitch`]).
    pub fn store_sample_info(
        &mut self,
        instrument_index: usize,
        original_length_bytes: i64,
        encoded_length_bytes: i64,
        pitch_units: i32,
        original_channels: u32,
        original_bits_per_sample: u32,
        renoise_base_note: i32,
        renoise_fine_tuning: i32,
        transpose: i32,
    )
        requires
            instrument_index < old(self)@.instruments.len(),
            original_channels > 0,
            sample_properties_defined(pitch_units as int, renoise_base_note as int, transpose as int, renoise_fine_tuning as int),
        ensures
            final(self)@ == (ModEncoderModel {
                instruments: old(self)@.instruments.update(instrument_index as int, ModInstrumentInfo {
                    related_note: sample_properties_spec(pitch_units as int, renoise_base_note as int, transpose as int, renoise_fine_tuning as int).relative_tone,
                    fine_tune: sample_properties_spec(pitch_units as int, renoise_base_note as int, transpose as int, renoise_fine_tuning as int).fine_tune,
                    length: (encoded_length_bytes as u64) as i32,
                    original_length: ((if original_bits_per_sample > 8 { (original_length_bytes as u64) / 2 } else { original_length_bytes as u64 }) / (original_channels as u64)) as i32,
                }),
                ..old(self)@
            }),
    {
        let computed_length = calculate_sample_length(encoded_length_bytes as u64, 8, 1);
        let computed_original_length = calculate_sample_length(
            original_length_bytes as u64,
            original_bits_per_sample,
            original_channels,
        );
        let props = sample_properties_from_pitch(pitch_units, renoise_base_note, transpose, renoise_fine_tuning);
        self.instruments.set(instrument_index, ModInstrumentInfo {
            related_note: props.relative_tone,
            fine_tune: props.fine_tune,
            length: computed_length as i32,
            original_length: computed_original_length as i32,
        });
    }

    pub fn sample_fine_tune(&self, instrument_index: usize) -> (r: i32)
        requires
            instrument_index < self@.instruments.len(),
        ensures
            r == self@.instruments[instrument_index as int].fine_tune,
    {
        self.instruments[instrument_index].fine_tune
    }

    pub fn sample_length(&self, instrument_index: usize) -> (r: i32)
        requires
            instrument_index < self@.instruments.len(),
        ensures
            r == self@.instruments[instrument_index as int].length,
    {
        self.instruments[instrument_index].length
    }

    /// Rescales a loop point (frames at the source rate) into the resampled MOD sample and
    /// halves it (MOD stores loop points in words).
    pub fn get_loop_value(&self, loop_value: u32, instrument_index: usize) -> (r: i32)
        requires
            instrument_index < self@.instruments.len(),
        ensures
            r == loop_value_of(self@.instruments[instrument_index as int], loop_value as int),
    {
        let info = self.instruments[instrument_index];
        if info.length > 0 {
            let divisor: i64 = if info.original_length > 1 { info.original_length as i64 } else { 1 };
            assert(0 <= (loop_value as int) * (info.length as int) <= 0xFFFF_FFFF * 0x7FFF_FFFF) by (nonlinear_arith)
                requires info.length > 0, loop_value <= 0xFFFF_FFFF, info.length <= 0x7FFF_FFFF;
            let product = loop_value as i64 * info.length as i64;
            (#[verifier::truncate] ((product / divisor / 2) as i32))
        } else {
            0
        }
    }

    /// Whether sample-offset commands are written with their raw value.
    pub fn sample_offset_compat(&self) -> (r: bool)
        ensures
            r == self@.sample_offset_compatibility_mode,
    {
        self.sample_offset_compatibility_mode
    }

    pub fn compat(&self) -> (r: ProTrackerCompatibility)
        ensures
            r == self@.compat(),
    {
        self.settings.pro_tracker_compatibility
    }

    /// Period of a MOD note name (e.g. `"C-2"`) with no compatibility clamping.
    pub fn mod_note_period_from_name(note: &str) -> (r: Result<i32, Error>)
        requires
            !note_slice_splits_char(note@),
        ensures
            r is Ok <==> note_name_period_index(note@) is Some,
            r matches Ok(p) ==> p == PERIODS_RANGE@[note_name_period_index(note@).unwrap() as int],
            r matches Err(e) ==> (e matches Error::Conversion(ConversionError::NoteNameOutOfRange(n)) && n@ == note@),
    {
        match parse_note_name_to_period_index(note) {
            Some(idx) => Ok(PERIODS_RANGE[idx as usize]),
            None => Err(Error::Conversion(ConversionError::NoteNameOutOfRange(note.to_owned()))),
        }
    }

    fn mod_note_index(&self, note: i32, sample_number: i32) -> (r: Result<i32, Error>)
        requires
            self@.mod_note_index_defined(note as int, sample_number as int),
        ensures
            r is Ok <==> self@.mod_note_index(note as int, sample_number as int) is Some,
            r matches Ok(v) ==> self@.mod_note_index(note as int, sample_number as int) == Some(v),
            r matches Err(e) ==> e == Error::Conversion(ConversionError::NoteNumberOutOfRange(note)),
    {
        let tone_to_add = if sample_number >= 0 {
            self.instruments[sample_number as usize].related_note
        } else {
            0
        };
        if note < 0 {
            return Ok(0);
        }
        let octave = note / 12;
        let note_index = note % 12;
        let final_note = (octave - 2) * 12 + note_index + tone_to_add;
        if is_note_in_range(final_note, self.compat()) {
            Ok(final_note)
        } else {
            Err(Error::Conversion(ConversionError::NoteNumberOutOfRange(note)))
        }
    }

    /// Triggers `note` on `channel`, returning its MOD period (0 for a name that is not a note).
    /// A glide target only updates the channel's tone-portamento target; any other note resets
    /// the channel's pitch to it. `sample_number` is 0-based, `-1` meaning no instrument.
    pub fn trigger_mod_note(
        &mut self,
        note: &str,
        sample_number: i32,
        channel: usize,
        is_tone_portamento_triggered: bool,
    ) -> (r: Result<i32, Error>)
        requires
            old(self)@.trigger_defined(note@, sample_number as int, channel as int),
        ensures
            final(self)@ == (ModEncoderModel {
                channels: old(self)@.trigger(note@, sample_number as int, channel as int, is_tone_portamento_triggered).0,
                ..old(self)@
            }),
            r is Ok <==> old(self)@.trigger(note@, sample_number as int, channel as int, is_tone_portamento_triggered).1 is Some,
            r matches Ok(v) ==> old(self)@.trigger(note@, sample_number as int, channel as int, is_tone_portamento_triggered).1 == Some(v),
            r matches Err(e) ==> (e matches Error::Conversion(ConversionError::NoteOutOfRange(n)) && n@ == note@),
    {
        let tone_to_add = if sample_number >= 0 {
            self.instruments[sample_number as usize].related_note
        } else {
            0
        };
        let (octave, note_offset) = match parse_note_name_parts(note) {
            Some(parts) => parts,
            None => return Ok(0),
        };
        let final_index = (octave - 2) * 12 + note_offset + tone_to_add;
        if !is_note_in_range(final_index, self.compat()) {
            return Err(Error::Conversion(ConversionError::NoteOutOfRange(note.to_owned())));
        }
        let value = PERIODS_RANGE[final_index as usize];
        let renoise_note = octave * 12 + note_offset;
        let mut ch = self.channel_data[channel];
        ch.current_sample = sample_number;
        if is_tone_portamento_triggered {
            ch.tone_portamento_note = renoise_note;
            ch.tone_portamento_period = value;
        } else {
            ch.current_pitch = 0;
            ch.current_period = value;
            ch.tone_portamento_period = value;
            ch.tone_portamento_note = renoise_note;
            ch.reached_note = renoise_note;
        }
        self.channel_data.set(channel, ch);
        Ok(value)
    }

    /// Whether the cell starts a glide; refused when a volume/panning-column glide meets any
    /// effect-column command.
    pub fn is_tone_portamento_triggered(
        effect: Option<&str>,
        volume: Option<&str>,
        panning: Option<&str>,
    ) -> (r: Result<bool, Error>)
        ensures
            r is Ok <==> tone_portamento_triggered(opt_view(effect), opt_view(volume), opt_view(panning)) is Some,
            r matches Ok(b) ==> tone_portamento_triggered(opt_view(effect), opt_view(volume), opt_view(panning)) == Some(b),
            r matches Err(e) ==> e == Error::Conversion(ConversionError::GlideConflict),
    {
        let mut output = false;
        if let Some(e) = effect {
            let n = e.unicode_len();
            output = n >= 2 && e.get_char(0) == '0' && e.get_char(1) == 'G';
        }
        if !output {
            if let Some(v) = volume {
                output = v.unicode_len() >= 1 && v.get_char(0) == 'G';
                if output && effect.is_some() {
                    return Err(Error::Conversion(ConversionError::GlideConflict));
                }
            }
        }
        if !output {
            if let Some(p) = panning {
                output = p.unicode_len() >= 1 && p.get_char(0) == 'G';
                if output && effect.is_some() {
                    return Err(Error::Conversion(ConversionError::GlideConflict));
                }
            }
        }
        Ok(output)
    }

    fn periods_range_pair(&self, index: i32) -> (r: Result<(i32, i32), Error>)
        ensures
            r is Ok <==> periods_pair(index as int) is Some,
            r matches Ok(p) ==> periods_pair(index as int) == Some(p),
    {
        if index < 0 || index >= 72 {
            return Err(Error::Conversion(ConversionError::NoteIndexOutOfTable(index)));
        }
        if index == 71 {
            return Err(Error::Conversion(ConversionError::NoteIndexWithoutUpperNeighbor(index)));
        }
        Ok((PERIODS_RANGE[index as usize], PERIODS_RANGE[index as usize + 1]))
    }
    /// The Renoise note reached by pitch `pitch` from `reached_note`, computed
    /// in floating point (`(pitch / 16.0 + reached_note).trunc() as i32`, which is exact here).
    fn reached_note_of(pitch: i32, reached_note: i32) -> (r: i32)
        ensures
            r == reached_renoise_note(pitch as int, reached_note as int),
    {
        let sum: i64 = pitch as i64 + 16 * (reached_note as i64);
        let magnitude: i64 = if sum < 0 { (-sum) / 16 } else { sum / 16 };
        let q: i64 = if sum < 0 { -magnitude } else { magnitude };
        if q > 0x7FFF_FFFF {
            0x7FFF_FFFF
        } else if q < -0x8000_0000 {
            -0x8000_0000
        } else {
            q as i32
        }
    }

    fn relative_pitch_of(pitch: i32) -> (r: i32)
        ensures
            r == relative_pitch(pitch as int),
            0 <= r < 16,
    {
        let rem = crate::numeric::trunc_rem_i32(pitch, 16);
        if rem < 0 { rem + 16 } else { rem }
    }

    /// The tone-portamento step from the channel's stored period towards the target note.
    fn tone_portamento_delta(
        &mut self,
        value: i32,
        channel: usize,
        is_note_triggered: bool,
        ignore_pitch_compatibility_mode: bool,
    ) -> (r: Result<i32, Error>)
        requires
            old(self)@.tone_portamento_delta_defined(value as int, channel as int, ignore_pitch_compatibility_mode),
        ensures
            final(self)@ == (ModEncoderModel {
                channels: old(self)@.tone_portamento_delta(value as int, channel as int, is_note_triggered, ignore_pitch_compatibility_mode).0,
                ..old(self)@
            }),
            r is Ok <==> old(self)@.tone_portamento_delta(value as int, channel as int, is_note_triggered, ignore_pitch_compatibility_mode).1 is Some,
            r matches Ok(v) ==> old(self)@.tone_portamento_delta(value as int, channel as int, is_note_triggered, ignore_pitch_compatibility_mode).1 == Some(v),
    {
        let ch = self.channel_data[channel];
        let mut value = value;
        if value == 0 && ch.last_portamento_value > 0 {
            value = ch.last_portamento_value;
        }
        if value == 0 || ch.current_period == ch.tone_portamento_period {
            return if is_note_triggered {
                Ok(0)
            } else {
                Err(Error::Conversion(ConversionError::TonePortamentoZeroValue))
            };
        }
        let tone_portamento_period = ch.tone_portamento_period;
        let real_value = if !ignore_pitch_compatibility_mode && self.pitch_compatibility_mode {
            value * if self.ticks_per_row > 1 { self.ticks_per_row - 1 } else { 1 }
        } else {
            value
        };
        let direction_flag: i32 = if ch.current_period < tone_portamento_period { -1 } else { 1 };
        let current_pitch = ch.current_pitch + real_value * direction_flag;
        let current_renoise_note = Self::reached_note_of(current_pitch, ch.reached_note);
        let current_period = ch.current_period;
        let mod_note = self.mod_note_index(current_renoise_note, ch.current_sample)?;
        let relative = Self::relative_pitch_of(current_pitch);
        if current_period == 0 {
            return Err(Error::Conversion(ConversionError::NoPreviousNote));
        }
        let (first_period, second_period) = self.periods_range_pair(mod_note)?;
        proof {
            lemma_period_bounds(mod_note as int);
            lemma_period_bounds(mod_note as int + 1);
        }
        let delta = first_period - second_period;
        assert(0 <= relative * delta <= 16 * 1712) by (nonlinear_arith)
            requires 0 <= relative < 16, 0 <= delta <= 1712;
        let portamento = crate::numeric::trunc_div_i32(relative * delta, 16);
        let target_period = first_period - portamento;
        let portamento = (current_period - target_period) * direction_flag;
        let mut ch = ch;
        ch.reached_note = current_renoise_note;
        ch.current_pitch = relative;
        ch.last_portamento_command = 0x03;
        ch.last_portamento_value = value;
        ch.portamento_direction_flag = direction_flag;
        self.channel_data.set(channel, ch);
        Ok(portamento)
    }

    /// The portamento step from the channel's stored period.
    fn portamento_delta(
        &mut self,
        command: char,
        value: i32,
        channel: usize,
        ignore_pitch_compatibility_mode: bool,
    ) -> (r: Result<i32, Error>)
        requires
            old(self)@.portamento_delta_defined(command, value as int, channel as int, ignore_pitch_compatibility_mode),
        ensures
            final(self)@ == (ModEncoderModel {
                channels: old(self)@.portamento_delta(command, value as int, channel as int, ignore_pitch_compatibility_mode).0,
                ..old(self)@
            }),
            r is Ok <==> old(self)@.portamento_delta(command, value as int, channel as int, ignore_pitch_compatibility_mode).1 is Some,
            r matches Ok(v) ==> old(self)@.portamento_delta(command, value as int, channel as int, ignore_pitch_compatibility_mode).1 == Some(v),
    {
        let ch = self.channel_data[channel];
        let mut value = value;
        if value == 0 && ch.last_portamento_value > 0 {
            value = ch.last_portamento_value;
        }
        let (direction_flag, portamento_command): (i32, i32) = if command == 'U' {
            (1, 1)
        } else if command == 'D' {
            (-1, 2)
        } else {
            return Err(Error::Conversion(ConversionError::InvalidPortamentoCommand));
        };
        let real_value = if !ignore_pitch_compatibility_mode && self.pitch_compatibility_mode {
            value * if self.ticks_per_row > 1 { self.ticks_per_row - 1 } else { 1 }
        } else {
            value
        };
        let current_pitch = ch.current_pitch + real_value * direction_flag;
        let current_renoise_note = Self::reached_note_of(current_pitch, ch.reached_note);
        let mod_note = self.mod_note_index(current_renoise_note, ch.current_sample)?;
        let current_period = ch.current_period;
        let relative = Self::relative_pitch_of(current_pitch);
        if current_period == 0 {
            return Err(Error::Conversion(ConversionError::NoPreviousNote));
        }
        let (first_period, second_period) = self.periods_range_pair(mod_note)?;
        proof {
            lemma_period_bounds(mod_note as int);
            lemma_period_bounds(mod_note as int + 1);
        }
        let delta = first_period - second_period;
        assert(0 <= relative * delta <= 16 * 1712) by (nonlinear_arith)
            requires 0 <= relative < 16, 0 <= delta <= 1712;
        let portamento = crate::numeric::trunc_div_i32(relative * delta, 16);
        let target_period = first_period - portamento;
        let portamento = (current_period - target_period) * direction_flag;
        let mut ch = ch;
        ch.reached_note = current_renoise_note;
        ch.current_pitch = relative;
        ch.last_portamento_command = portamento_command;
        ch.last_portamento_value = value;
        ch.portamento_direction_flag = direction_flag;
        self.channel_data.set(channel, ch);
        if portamento == 0 {
            return Err(Error::Conversion(ConversionError::PortamentoResultedZero));
        }
        Ok(portamento)
    }

    fn effective_portamento(command: u8, value: u8, ticks_per_row: i32) -> (r: i32)
        requires
            effective_portamento_defined(command, value, ticks_per_row as int),
        ensures
            r == effective_portamento(command, value, ticks_per_row as int),
    {
        if 0x01 <= command && command <= 0x03 {
            value as i32 * (ticks_per_row - 1)
        } else if command == 0x0E {
            let low = value & 0x0F;
            assert(low == value % 16) by (bit_vector) requires low == value & 0x0F;
            low as i32
        } else {
            0
        }
    }

    /// Records the channel's new period after a portamento.
    fn store_channel_period(&mut self, portamento: i32, command: char, channel: usize)
        requires
            store_channel_period_defined(old(self)@.channels, portamento as int, channel as int),
        ensures
            final(self)@ == (ModEncoderModel {
                channels: store_channel_period(old(self)@.channels, portamento as int, command, channel as int),
                ..old(self)@
            }),
    {
        let mut ch = self.channel_data[channel];
        let direction_flag = -ch.portamento_direction_flag;
        let mut current_period = ch.current_period + portamento * direction_flag;
        if command == 'G'
            && ((direction_flag > 0 && current_period > ch.tone_portamento_period)
                || (direction_flag < 0 && current_period < ch.tone_portamento_period))
        {
            current_period = ch.tone_portamento_period;
            ch.reached_note = ch.tone_portamento_note;
            ch.current_pitch = 0;
        }
        ch.current_period = current_period;
        self.channel_data.set(channel, ch);
    }
    /// A pitch slide command: delta from the channel state, command choice, period update.
    fn slide(&mut self, num: i32, command: char, value: i32, channel: usize, ignore_pitch_compatibility_mode: bool) -> (r: (u8, u8))
        requires
            old(self)@.slide_step_defined(num as int, command, value as int, channel as int, ignore_pitch_compatibility_mode),
        ensures
            final(self)@ == old(self)@.with_channels(old(self)@.slide_step(num as int, command, value as int, channel as int, ignore_pitch_compatibility_mode).0),
            r == old(self)@.slide_step(num as int, command, value as int, channel as int, ignore_pitch_compatibility_mode).1,
    {
        let threshold = self.settings.portamento_loss_threshold;
        let pitch_compat = self.pitch_compatibility_mode;
        let ticks = self.ticks_per_row;
        match self.portamento_delta(command, value, channel, ignore_pitch_compatibility_mode) {
            Ok(delta) => {
                let ret = commands::portamento(num, delta, ticks, threshold, pitch_compat);
                let effective = Self::effective_portamento(ret.0, ret.1, ticks);
                self.store_channel_period(effective, command, channel);
                ret
            },
            Err(_) => (0, 0),
        }
    }

    /// A glide command: delta towards the target, `3xx` command, period update.
    fn glide(&mut self, value: i32, channel: usize, is_note_triggered: bool, ignore_pitch_compatibility_mode: bool) -> (r: (u8, u8))
        requires
            old(self)@.glide_step_defined(value as int, channel as int, is_note_triggered, ignore_pitch_compatibility_mode),
        ensures
            final(self)@ == old(self)@.with_channels(old(self)@.glide_step(value as int, channel as int, is_note_triggered, ignore_pitch_compatibility_mode).0),
            r == old(self)@.glide_step(value as int, channel as int, is_note_triggered, ignore_pitch_compatibility_mode).1,
    {
        let ticks = self.ticks_per_row;
        match self.tone_portamento_delta(value, channel, is_note_triggered, ignore_pitch_compatibility_mode) {
            Ok(delta) => match commands::tone_portamento(delta, ticks) {
                Ok(ret) => {
                    let effective = Self::effective_portamento(ret.0, ret.1, ticks);
                    self.store_channel_period(effective, 'G', channel);
                    ret
                },
                Err(_) => (0, 0),
            },
            Err(_) => (0, 0),
        }
    }

    /// The MOD effect of a sample command. `sample_index` is the 1-based MOD sample number (0 = none).
    fn get_sample_commands(
        &mut self,
        command: char,
        value: i32,
        sample_index: i32,
        channel: usize,
        is_note_triggered: bool,
    ) -> (r: (u8, u8))
        requires
            old(self)@.sample_commands_defined(command, value as int, sample_index as int, channel as int, is_note_triggered),
        ensures
            final(self)@ == old(self)@.with_channels(old(self)@.sample_commands(command, value as int, sample_index as int, channel as int, is_note_triggered).0),
            r == old(self)@.sample_commands(command, value as int, sample_index as int, channel as int, is_note_triggered).1,
    {
        let sample_offset_compat = self.sample_offset_compatibility_mode;
        let ticks = self.ticks_per_row;
        if command == 'A' {
            commands::arpeggio(value)
        } else if command == 'U' {
            self.slide(1, 'U', value, channel, false)
        } else if command == 'D' {
            self.slide(2, 'D', value, channel, false)
        } else if command == 'M' {
            commands::set_volume(value)
        } else if command == 'G' {
            self.glide(value, channel, is_note_triggered, false)
        } else if command == 'I' {
            commands::volume_up(value, ticks)
        } else if command == 'O' {
            commands::volume_down(value, ticks)
        } else if command == 'P' {
            commands::set_panning(value)
        } else if command == 'S' {
            let sample_size = if sample_index > 0 {
                self.sample_length((sample_index - 1) as usize)
            } else {
                0
            };
            commands::set_sample_offset(value, sample_size, sample_offset_compat)
        } else if command == 'Q' {
            commands::note_delay(value)
        } else if command == 'R' {
            commands::retrig_note(value)
        } else if command == 'V' {
            commands::vibrato(value)
        } else if command == 'T' {
            commands::tremolo(value)
        } else {
            (0, 0)
        }
    }

    /// The MOD effect of a global (master track) command.
    fn get_global_commands(&self, command: char, value: i32) -> (r: (u8, u8))
        ensures
            r == self@.global_commands(command, value as int),
    {
        if command == 'T' {
            commands::set_tempo(value)
        } else if command == 'L' {
            if self.playback_engine_version == 1 { commands::set_speed(value) } else { (0, 0) }
        } else if command == 'K' {
            commands::set_speed(value)
        } else if command == 'B' {
            commands::pattern_break(value)
        } else if command == 'D' {
            commands::pattern_delay(value)
        } else {
            (0, 0)
        }
    }

    /// Converts an effect-column command. `sample_index` is the 1-based MOD
    /// sample number (0 = none).
    pub fn get_mod_effect(
        &mut self,
        xrns_eff_num: &str,
        xrns_eff_val: &str,
        sample_index: i32,
        channel: usize,
        is_note_triggered: bool,
    ) -> (r: Result<(u8, u8), Error>)
        requires
            old(self)@.mod_effect_defined(xrns_eff_num@, xrns_eff_val@, sample_index as int, channel as int, is_note_triggered),
        ensures
            final(self)@ == old(self)@.with_channels(old(self)@.mod_effect(xrns_eff_num@, xrns_eff_val@, sample_index as int, channel as int, is_note_triggered).0),
            r is Ok <==> old(self)@.mod_effect(xrns_eff_num@, xrns_eff_val@, sample_index as int, channel as int, is_note_triggered).1 is Some,
            r matches Ok(c) ==> old(self)@.mod_effect(xrns_eff_num@, xrns_eff_val@, sample_index as int, channel as int, is_note_triggered).1 == Some(c),
            xrns_eff_num@.len() == 0 ==> r == Err::<(u8, u8), Error>(Error::Conversion(ConversionError::EmptyEffectNumber)),
            xrns_eff_num@.len() == 1 ==> r == Err::<(u8, u8), Error>(Error::Conversion(ConversionError::TruncatedEffectNumber)),
            xrns_eff_num@.len() >= 2 && parse_hex_i32_spec(xrns_eff_val@) is None
                ==> (r matches Err(Error::Conversion(ConversionError::InvalidEffectValue(v))) && v@ == xrns_eff_val@),
    {
        let n = xrns_eff_num.unicode_len();
        if n == 0 {
            return Err(Error::Conversion(ConversionError::EmptyEffectNumber));
        }
        let eff_type = xrns_eff_num.get_char(0);
        if n == 1 {
            return Err(Error::Conversion(ConversionError::TruncatedEffectNumber));
        }
        let eff_com = xrns_eff_num.get_char(1);
        let eff_val = match parse_hex_i32(xrns_eff_val) {
            Some(v) => v,
            None => return Err(Error::Conversion(ConversionError::InvalidEffectValue(xrns_eff_val.to_owned()))),
        };
        if eff_type == '0' {
            Ok(self.get_sample_commands(eff_com, eff_val, sample_index, channel, is_note_triggered))
        } else if eff_type == 'Z' {
            Ok(self.get_global_commands(eff_com, eff_val))
        } else {
            Ok((0, 0))
        }
    }

    /// Converts a master-track command: only global commands.
    pub fn get_commands_from_master_track(&self, xrns_eff_num: &str, xrns_eff_val: &str) -> (r: Result<(u8, u8), Error>)
        ensures
            r is Ok <==> self@.master_track_command(xrns_eff_num@, xrns_eff_val@) is Some,
            r matches Ok(c) ==> self@.master_track_command(xrns_eff_num@, xrns_eff_val@) == Some(c),
            xrns_eff_num@.len() == 0 ==> r == Err::<(u8, u8), Error>(Error::Conversion(ConversionError::EmptyEffectNumber)),
            xrns_eff_num@.len() == 1 ==> r == Err::<(u8, u8), Error>(Error::Conversion(ConversionError::TruncatedEffectNumber)),
            xrns_eff_num@.len() >= 2 && parse_hex_i32_spec(xrns_eff_val@) is None
                ==> (r matches Err(Error::Conversion(ConversionError::InvalidEffectValue(v))) && v@ == xrns_eff_val@),
    {
        let n = xrns_eff_num.unicode_len();
        if n == 0 {
            return Err(Error::Conversion(ConversionError::EmptyEffectNumber));
        }
        let eff_type = xrns_eff_num.get_char(0);
        if n == 1 {
            return Err(Error::Conversion(ConversionError::TruncatedEffectNumber));
        }
        let eff_com = xrns_eff_num.get_char(1);
        let eff_val = match parse_hex_i32(xrns_eff_val) {
            Some(v) => v,
            None => return Err(Error::Conversion(ConversionError::InvalidEffectValue(xrns_eff_val.to_owned()))),
        };
        if eff_type == 'Z' {
            Ok(self.get_global_commands(eff_com, eff_val))
        } else {
            Ok((0, 0))
        }
    }

    /// The MOD effect of a volume/panning column command.
    fn transpose_vol_pan_to_effect(&mut self, command: char, value: i32, channel: usize, is_note_triggered: bool) -> (r: (u8, u8))
        requires
            0 <= value < 16,
            old(self)@.vol_pan_to_effect_defined(command, value as int, channel as int, is_note_triggered),
        ensures
            final(self)@ == old(self)@.with_channels(old(self)@.vol_pan_to_effect(command, value as int, channel as int, is_note_triggered).0),
            r == old(self)@.vol_pan_to_effect(command, value as int, channel as int, is_note_triggered).1,
    {
        let shifted = value << 4;
        assert(shifted == value * 16) by (bit_vector)
            requires shifted == value << 4, 0 <= value < 16;
        if command == 'U' {
            self.slide(1, 'U', shifted, channel, true)
        } else if command == 'D' {
            self.slide(2, 'D', shifted, channel, true)
        } else if command == 'G' {
            self.glide(shifted, channel, is_note_triggered, true)
        } else if command == 'Q' {
            commands::note_delay(value)
        } else if command == 'R' {
            commands::retrig_note(value)
        } else if command == 'C' {
            commands::note_cut(value)
        } else {
            (0, 0)
        }
    }

    /// Converts a volume-column value: `00-80` sets the
    /// volume, `'I'`/`'O'` slide it, and the remaining commands go through the shared
    /// volume/panning-column table.
    pub fn transpose_volume_to_command_effect(&mut self, xrns_col_vol_eff: &str, sample_index: i32, channel: usize, is_note_triggered: bool) -> (r: (u8, u8))
        requires
            old(self)@.volume_to_effect_defined(xrns_col_vol_eff@, channel as int, is_note_triggered),
        ensures
            final(self)@ == old(self)@.with_channels(old(self)@.volume_to_effect(xrns_col_vol_eff@, channel as int, is_note_triggered).0),
            r == old(self)@.volume_to_effect(xrns_col_vol_eff@, channel as int, is_note_triggered).1,
    {
        if xrns_col_vol_eff.unicode_len() < 2 {
            return (0, 0);
        }
        let eff_com = xrns_col_vol_eff.get_char(0);
        let value = match hex_digit(xrns_col_vol_eff.get_char(1)) {
            Some(v) => v as i32,
            None => return (0, 0),
        };
        let ticks = self.ticks_per_row;
        if '0' <= eff_com && eff_com <= '8' {
            match parse_hex_i32(xrns_col_vol_eff) {
                Some(hex_val) => commands::transpose_set_volume_from_volume(hex_val),
                None => (0, 0),
            }
        } else if eff_com == 'I' {
            commands::transpose_volume_slide_up_from_volume(value, ticks)
        } else if eff_com == 'O' {
            commands::transpose_volume_slide_down_from_volume(value, ticks)
        } else {
            self.transpose_vol_pan_to_effect(eff_com, value, channel, is_note_triggered)
        }
    }

    /// Converts a delay-column value: the fraction of the row
    /// in ticks, as an `EDx` note delay when nonzero.
    pub fn transpose_delay_to_command_effect(&self, xrns_col_delay: &str) -> (r: (u8, u8))
        requires
            self@.delay_to_effect_defined(xrns_col_delay@),
        ensures
            r == self@.delay_to_effect(xrns_col_delay@),
    {
        let value = match parse_hex_i32(xrns_col_delay) {
            Some(v) => v,
            None => return (0, 0),
        };
        let product = value * self.ticks_per_row;
        let mut result = crate::numeric::round_div_sat(product as i64, 255);
        assert(-0x0100_0000 <= round_div(product as int, 255) <= 0x0100_0000) by {
            let a = product as int;
            let m = (2 * crate::numeric::abs(a) + 255) / (510int);
            assert(0 <= m <= 0x0100_0000) by (nonlinear_arith)
                requires m == (2 * crate::numeric::abs(a) + 255) / (510int), 0 <= crate::numeric::abs(a) <= 0x8000_0000;
        }
        assert(result == round_div(product as int, 255));
        if result == self.ticks_per_row {
            result -= 1;
        }
        if result > 0 {
            commands::note_delay(result)
        } else {
            (0, 0)
        }
    }

    /// Converts a panning-column value. Numeric panning and
    /// panning slides are deliberately dropped: MOD panning affects the whole channel, while
    /// Renoise's panning column only affects the current note.
    pub fn transpose_panning_to_command_effect(&mut self, xrns_col_pan_eff: &str, sample_index: i32, channel: usize, is_note_triggered: bool) -> (r: (u8, u8))
        requires
            old(self)@.panning_to_effect_defined(xrns_col_pan_eff@, channel as int, is_note_triggered),
        ensures
            final(self)@ == old(self)@.with_channels(old(self)@.panning_to_effect(xrns_col_pan_eff@, channel as int, is_note_triggered).0),
            r == old(self)@.panning_to_effect(xrns_col_pan_eff@, channel as int, is_note_triggered).1,
    {
        if xrns_col_pan_eff.unicode_len() < 2 {
            return (0, 0);
        }
        let eff_com = xrns_col_pan_eff.get_char(0);
        let value = match hex_digit(xrns_col_pan_eff.get_char(1)) {
            Some(v) => v as i32,
            None => return (0, 0),
        };
        if ('0' <= eff_com && eff_com <= '8') || eff_com == 'J' || eff_com == 'K' {
            (0, 0)
        } else {
            self.transpose_vol_pan_to_effect(eff_com, value, channel, is_note_triggered)
        }
    }
}

} // verus!
