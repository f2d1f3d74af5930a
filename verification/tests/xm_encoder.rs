use renoise2mod_core::error::{ConversionError, Error};
use renoise2mod_core::model::{ColumnVolume, LoopMode};
use renoise2mod_core::xm_format::encoder::{
    get_point_number, get_sample_loop_mode, get_sample_loop_value, get_volume_panning_type, get_xm_note, XmEncoder,
};
use renoise2mod_core::xm_format::extras::{
    is_volume_set_on_effect_column, is_volume_set_on_volume_column, scale_volume_from_effect_command,
    scale_volume_from_effect_command_new, scale_volume_from_volume_command, scale_volume_from_volume_command_new,
};

#[test]
fn xm_note_off_maps_to_97() {
    assert_eq!(get_xm_note("OFF").unwrap(), 97);
}

#[test]
fn xm_note_c0_maps_to_1() {
    assert_eq!(get_xm_note("C-0").unwrap(), 1);
}

#[test]
fn xm_note_octave_8_or_above_errors() {
    assert!(get_xm_note("C-8").is_err());
}

#[test]
fn xm_note_other_names() {
    assert_eq!(get_xm_note("B-7").unwrap(), 96);
    assert_eq!(get_xm_note("C#4").unwrap(), 50);
    assert_eq!(get_xm_note("---").unwrap(), 0);
    assert_eq!(get_xm_note("C-").unwrap(), 0);
    assert!(matches!(get_xm_note("C-X"), Err(Error::Conversion(ConversionError::NoteOutOfRange(n))) if n == "C-X"));
}

#[test]
fn get_point_number_finds_index_by_x() {
    let points = vec![(0, 10), (5, 20), (10, 0)];
    assert_eq!(get_point_number(&points, 5), 1);
    assert_eq!(get_point_number(&points, 999), 0);
}

#[test]
fn header_field_helpers() {
    assert_eq!(get_sample_loop_mode(LoopMode::Off), 0);
    assert_eq!(get_sample_loop_mode(LoopMode::Forward), 1);
    assert_eq!(get_sample_loop_mode(LoopMode::PingPong), 2);
    assert_eq!(get_sample_loop_value(100, 16, true), 400);
    assert_eq!(get_sample_loop_value(100, 8, false), 100);
    assert_eq!(get_volume_panning_type(true, false, true), 5);
    assert_eq!(get_volume_panning_type(false, true, false), 2);
}

#[test]
fn volume_set_range_detection_matches_wraparound_behavior() {
    assert!(is_volume_set_on_volume_column(0x10));
    assert!(is_volume_set_on_volume_column(0x50));
    assert!(!is_volume_set_on_volume_column(0x51));
    assert!(!is_volume_set_on_volume_column(0x05));
    assert!(is_volume_set_on_effect_column(0x0C));
    assert!(!is_volume_set_on_effect_column(0x0D));
}

/// The column volume table of a volume factor, computed as the sample pass does.
fn column_volume(factor: f32, default_volume: u8) -> ColumnVolume {
    let scaled: Vec<i32> = (-16i32..=255).map(|v| (v as f32 * factor) as i32).collect();
    let sv = factor * (default_volume as f32 / 64.0);
    ColumnVolume { needs_scaling: (factor - 1.0).abs() > f32::EPSILON, scaled, trigger_scaled: (64.0f32 * sv) as i32 }
}

#[test]
fn scaling_above_nominal_volume_errors() {
    assert!(scale_volume_from_volume_command(0x50, &column_volume(2.0, 64)).is_err());
}

#[test]
fn scaling_within_range_succeeds() {
    assert_eq!(scale_volume_from_volume_command(0x50, &column_volume(0.5, 64)).unwrap(), 0x30);
}

#[test]
fn scaling_effect_and_new_commands() {
    let half = column_volume(0.5, 64);
    assert_eq!(scale_volume_from_effect_command(0x40, &half).unwrap(), 0x20);
    assert_eq!(scale_volume_from_volume_command_new(&half).unwrap(), 0x30);
    assert_eq!(scale_volume_from_effect_command_new(&half).unwrap(), (0x0C, 0x20));
    let loud = column_volume(2.0, 64);
    assert!(matches!(
        scale_volume_from_effect_command_new(&loud),
        Err(Error::Conversion(ConversionError::VolumeScalingFailed(128)))
    ));
}

fn encoder() -> XmEncoder {
    let mut key_map = [None; 120];
    key_map[48] = Some(1);
    XmEncoder::new(&[key_map], &[2], 6, 1, false, false)
}

#[test]
fn keymap_selects_sample() {
    let enc = encoder();
    // XM note 49 is Renoise note 48
    assert_eq!(enc.played_sample_from_keymap(49, 1), 1);
    assert_eq!(enc.played_sample_from_keymap(50, 1), 0);
    assert_eq!(enc.played_sample_from_keymap(120, 1), 0);
}

#[test]
fn effects_and_columns() {
    let enc = encoder();
    assert_eq!(enc.get_xm_effect("0A", "37", 0, 0).unwrap(), (0x0, 0x37));
    assert_eq!(enc.get_xm_effect("0B", "00", 0, 0).unwrap(), (0x21, 0x9F));
    assert_eq!(enc.get_xm_effect("ZT", "1F", 0, 0).unwrap(), (0, 0));
    assert_eq!(enc.get_xm_effect("ZT", "7D", 0, 0).unwrap(), (0x0F, 0x7D));
    assert_eq!(enc.get_xm_effect("ZL", "04", 0, 0).unwrap(), (0x0F, 0x04));
    assert!(matches!(enc.get_xm_effect("", "00", 0, 0), Err(Error::Conversion(ConversionError::EmptyEffectNumber))));
    assert!(matches!(enc.get_xm_effect("0", "00", 0, 0), Err(Error::Conversion(ConversionError::TruncatedEffectNumber))));
    assert!(matches!(enc.get_xm_effect("0A", "XY", 0, 0), Err(Error::Conversion(ConversionError::InvalidEffectValue(v))) if v == "XY"));
    assert_eq!(enc.get_commands_from_master_track("0M", "C0", false).unwrap(), (0x10, 0x40));
    assert_eq!(enc.get_commands_from_master_track("ZT", "80", true).unwrap(), (0, 0));
    assert_eq!(enc.get_commands_from_master_track("ZT", "80", false).unwrap(), (0x0F, 0x80));
    assert_eq!(enc.volume_column_effect_from_volume("80"), 0x50);
    assert_eq!(enc.volume_column_effect_from_volume("I2"), 0x98);
    assert_eq!(enc.volume_column_effect_from_volume("Q2"), 0);
    assert_eq!(enc.volume_column_effect_from_panning("40"), 0xC8);
    assert_eq!(enc.transpose_volume_to_command_effect("Q2"), (0xE, 0xD2));
    assert_eq!(enc.transpose_volume_to_command_effect("40"), (0x0C, 0x20));
    assert_eq!(enc.transpose_panning_to_command_effect("40"), (0x08, 0x80));
    assert_eq!(enc.transpose_panning_to_command_effect("B1"), (0x21, 0x9E));
    // delay 0x80 of a 6-tick row: round(0x80 * 6 / 255) = 3 ticks
    assert_eq!(enc.transpose_delay_to_command_effect("80"), (0xE, 0xD3));
    assert_eq!(enc.transpose_delay_to_command_effect("00"), (0, 0));
}

#[test]
fn sample_offset_uses_key_mapped_sample_length() {
    let mut enc = encoder();
    // 2048 bytes of 8-bit mono data: 2048 frames
    enc.store_sample_info(0, 1, 2048, 0, 1, 8, 48, 0, 0);
    assert_eq!(enc.sample_base_note(0, 1), 0);
    assert_eq!(enc.get_xm_effect("0S", "80", 49, 1).unwrap(), (0x9, 4));
    // without note or instrument the raw value is used
    assert_eq!(enc.get_xm_effect("0S", "80", 0, 0).unwrap(), (0x9, 0x80));
}
