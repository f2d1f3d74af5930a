use renoise2mod_core::common::sample_properties_from_pitch;
use renoise2mod_core::commands::{
    fine_portamento_up_down, note_delay, pattern_break, pattern_delay, portamento, set_sample_offset, set_tempo,
    tone_portamento, transpose_set_panning_from_panning, volume_slide_down, volume_slide_up,
};
use renoise2mod_core::common::{
    calculate_sample_length, compute_ticks_per_row_for_line, get_portamento_value, get_precision_lost_in_pitch_slide,
    get_volume_slide_value, is_fine_portamento_closer_to_value,
};
use renoise2mod_core::error::{ConversionError, Error};
use renoise2mod_core::model::{MasterTrackLineData, PatternData, TrackLineData};

#[test]
fn set_tempo_below_threshold_is_noop() {
    assert_eq!(set_tempo(0x20), (0, 0));
    assert_eq!(set_tempo(0x21), (0x0F, 0x21));
}

#[test]
fn pattern_break_targets_the_row_directly() {
    assert_eq!(pattern_break(11), (0xD, 11));
    assert_eq!(pattern_break(5), (0xD, 5));
}

#[test]
fn fine_portamento_up_down_clamps_and_packs_nibble() {
    assert_eq!(fine_portamento_up_down(1, 5), (0x0E, 0x15));
    assert_eq!(fine_portamento_up_down(2, 0xFF), (0x0E, 0x2F));
}

#[test]
fn volume_slide_up_shifts_into_high_nibble_down_does_not() {
    assert_eq!(volume_slide_up(20, 6), (0xA, 0x10));
    assert_eq!(volume_slide_down(20, 6), (0xA, 0x01));
}

#[test]
fn tone_portamento_errors_on_zero_result_for_nonzero_input() {
    assert!(tone_portamento(0, 6).is_ok());
}

#[test]
fn tone_portamento_refused_without_ticks() {
    // ticks_per_row 0 leaves no ticks to slide over: a nonzero speed rounds to nothing.
    assert!(matches!(
        tone_portamento(5, 0),
        Err(Error::Conversion(ConversionError::TonePortamentoDiscarded))
    ));
    assert_eq!(tone_portamento(10, 6).unwrap(), (0x03, 2));
}

#[test]
fn calculate_sample_length_matches_formula() {
    assert_eq!(calculate_sample_length(1000, 8, 1), 1000);
    assert_eq!(calculate_sample_length(1000, 16, 1), 500);
    assert_eq!(calculate_sample_length(1000, 16, 2), 250);
}

#[test]
fn portamento_value_never_rounds_nonzero_to_zero() {
    assert_eq!(get_portamento_value(1, 6), 1);
    assert_eq!(get_portamento_value(0, 6), 0);
}

#[test]
fn portamento_value_rounds_half_away_from_zero() {
    // divider 4: 10 / 4 = 2.5 -> 3, -10 / 4 = -2.5 -> -3.
    assert_eq!(get_portamento_value(10, 5), 3);
    assert_eq!(get_portamento_value(-10, 5), -3);
    // a small negative value rounds to 0 and is then written as 1
    assert_eq!(get_portamento_value(-1, 6), 1);
}

#[test]
fn volume_slide_value_quarters_then_divides() {
    assert_eq!(get_volume_slide_value(40, 6), 2);
    assert_eq!(get_volume_slide_value(40, 0), 0);
}

#[test]
fn fine_portamento_threshold_matches_formula() {
    assert!(is_fine_portamento_closer_to_value(1, 6, 2));
}

#[test]
fn precision_lost_in_pitch_slide_values() {
    assert_eq!(get_precision_lost_in_pitch_slide(1, 6), 4);
    assert_eq!(get_precision_lost_in_pitch_slide(13, 6), -2);
    assert_eq!(get_precision_lost_in_pitch_slide(7, 0), 0);
}

#[test]
fn portamento_picks_fine_or_coarse() {
    assert_eq!(portamento(1, 1, 6, 2, false), (0x0E, 0x11));
    assert_eq!(portamento(2, 40, 6, 2, false), (2, 8));
    // pitch compatibility mode never uses the fine command
    assert_eq!(portamento(1, 1, 6, 2, true), (1, 1));
}

#[test]
fn sample_offset_scales_by_sample_size() {
    // 0x80 of a 65536-frame sample -> 0x80 (256-byte units); compatibility keeps the value.
    assert_eq!(set_sample_offset(0x80, 65536, false), (0x9, 0x80));
    assert_eq!(set_sample_offset(0x80, 1024, false), (0x9, 2));
    assert_eq!(set_sample_offset(0x80, 1024, true), (0x9, 0x80));
    assert_eq!(set_sample_offset(0x80, 0, false), (0x9, 0x80));
}

#[test]
fn delay_commands_clamp_to_a_nibble() {
    assert_eq!(note_delay(3), (0xE, 0xD3));
    assert_eq!(note_delay(0x20), (0xE, 0xDF));
    assert_eq!(pattern_delay(0x20), (0xE, 0xEF));
}

#[test]
fn panning_from_panning_doubles_and_clamps() {
    assert_eq!(transpose_set_panning_from_panning(0x40), (0x08, 0x80));
    assert_eq!(transpose_set_panning_from_panning(0x80), (0x08, 0xFF));
}

fn two_channel_pattern() -> PatternData {
    PatternData {
        num_rows: 1,
        tracks_line_data: vec![TrackLineData::default(); 2],
        master_track_line_data: vec![MasterTrackLineData::default(); 1],
    }
}

#[test]
fn ticks_per_row_updates_on_matching_global_command() {
    let mut pattern = two_channel_pattern();
    pattern.tracks_line_data[0].effect_number = "ZL".to_string();
    pattern.tracks_line_data[0].effect_value = "07".to_string();
    let updated = compute_ticks_per_row_for_line(&pattern, 0, 2, 1, 1, 6);
    assert_eq!(updated, 7);
    let unchanged = compute_ticks_per_row_for_line(&pattern, 0, 2, 1, 2, 6);
    assert_eq!(unchanged, 6);
}

#[test]
fn ticks_per_row_requires_z_prefix_and_ignores_per_note_commands() {
    let mut pattern = two_channel_pattern();
    pattern.tracks_line_data[0].effect_number = "0L".to_string();
    pattern.tracks_line_data[0].effect_value = "03".to_string();
    let unchanged = compute_ticks_per_row_for_line(&pattern, 0, 2, 1, 1, 6);
    assert_eq!(unchanged, 6);
}

#[test]
fn ticks_per_row_also_checks_the_master_track() {
    let mut pattern = two_channel_pattern();
    pattern.master_track_line_data[0].effect_number = "ZL".to_string();
    pattern.master_track_line_data[0].effect_value = "05".to_string();
    let updated = compute_ticks_per_row_for_line(&pattern, 0, 2, 1, 1, 6);
    assert_eq!(updated, 5);
}

#[test]
fn sample_properties_unison_rate_gives_zero_offset() {
    // a sample at the C-2 rate is no pitch offset at all
    let props = sample_properties_from_pitch(0, 48, 0, 0);
    assert_eq!(props.relative_tone, 0);
    assert_eq!(props.fine_tune, 0);
}

#[test]
fn sample_properties_octave_up_gives_twelve_semitones() {
    // twice the C-2 rate is one octave: 12 semitones of 128 units
    let props = sample_properties_from_pitch(1536, 48, 0, 0);
    assert_eq!(props.relative_tone, 12);
    assert_eq!(props.fine_tune, 0);
}

#[test]
fn sample_properties_base_note_offset_shifts_relative_tone() {
    // a base note one semitone below C-4 (47) reads back as +1 at the same rate
    let props = sample_properties_from_pitch(0, 47, 0, 0);
    assert_eq!(props.relative_tone, 1);
}

#[test]
fn relative_tone_is_clamped() {
    // 0 + 48 - 0 + 100 = 148 is clamped to 127
    assert_eq!(sample_properties_from_pitch(0, 0, 100, 0).relative_tone, 127);
    // 0 + 48 - 100 - 100 = -152 is clamped to -127
    assert_eq!(sample_properties_from_pitch(0, 100, -100, 0).relative_tone, -127);
}
