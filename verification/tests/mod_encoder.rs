use renoise2mod_core::common::VolumeScalingMode;
use renoise2mod_core::error::{ConversionError, Error};
use renoise2mod_core::mod_format::encoder::{ModEncoder, ModSettings};
use renoise2mod_core::mod_format::period::{self, ProTrackerCompatibility, PERIODS_RANGE};
use renoise2mod_core::mod_format::{
    channels_tag, get_pattern_sequence_data, get_song_length_data, resolve_sample_rate, write_name_bytes,
};
use renoise2mod_core::model::SampleFreqMode;

fn settings() -> ModSettings {
    ModSettings {
        pro_tracker_compatibility: ProTrackerCompatibility::Disabled,
        ntsc_mode: false,
        portamento_loss_threshold: 2,
        volume_scaling_mode: VolumeScalingMode::Disabled,
    }
}

#[test]
fn rejects_column_volume_scaling() {
    let mut s = settings();
    s.volume_scaling_mode = VolumeScalingMode::Column;
    assert!(s.validate().is_err());
}

#[test]
fn rejects_portamento_loss_threshold_out_of_range() {
    let mut s = settings();
    s.portamento_loss_threshold = 5;
    assert!(matches!(
        s.validate(),
        Err(Error::Conversion(ConversionError::InvalidPortamentoLossThreshold))
    ));
    s.portamento_loss_threshold = 4;
    assert!(s.validate().is_ok());
}

#[test]
fn triggering_a_note_updates_channel_state_and_returns_period() {
    let mut enc = ModEncoder::new(1, 6, settings(), 1, false, false);
    let period = enc.trigger_mod_note("C-4", -1, 0, false).unwrap();
    assert_eq!(period, PERIODS_RANGE[24]);
    assert_eq!(period, 428);
}

#[test]
fn glide_conflict_between_effect_and_volume_column_errors() {
    let result = ModEncoder::is_tone_portamento_triggered(Some("0A"), Some("G0"), None);
    assert!(result.is_err());
}

#[test]
fn glide_alone_on_effect_column_is_detected() {
    let result = ModEncoder::is_tone_portamento_triggered(Some("0G"), None, None).unwrap();
    assert!(result);
}

#[test]
fn mod_note_period_from_name_matches_table() {
    assert_eq!(ModEncoder::mod_note_period_from_name("C-1").unwrap(), PERIODS_RANGE[12]);
}

#[test]
fn note_out_of_period_range_errors() {
    assert!(period::parse_note_name_to_period_index("Z-9").is_none());
}

#[test]
fn note_name_out_of_table_is_refused() {
    assert!(matches!(
        ModEncoder::mod_note_period_from_name("C-9"),
        Err(Error::Conversion(ConversionError::NoteNameOutOfRange(n))) if n == "C-9"
    ));
}

#[test]
fn period_range_checks_follow_compatibility() {
    assert!(period::is_note_in_period_range(0));
    assert!(period::is_note_in_period_range(71));
    assert!(!period::is_note_in_period_range(72));
    assert!(!period::is_note_in_period_range(-1));
}

#[test]
fn sample_rate_for_c2_and_original() {
    // PAL C-2 (period 428): 7093789.2 / 856 = 8287.14 -> 8287.
    assert_eq!(resolve_sample_rate(&SampleFreqMode::Low, 44100, false, ProTrackerCompatibility::Disabled).unwrap(), 8287);
    // NTSC: 7159090 / 856 = 8363.42 -> 8363.
    assert_eq!(resolve_sample_rate(&SampleFreqMode::Low, 44100, true, ProTrackerCompatibility::Disabled).unwrap(), 8363);
    assert_eq!(resolve_sample_rate(&SampleFreqMode::Original, 44100, false, ProTrackerCompatibility::Disabled).unwrap(), 44100);
    assert_eq!(resolve_sample_rate(&SampleFreqMode::Hz(22050), 44100, false, ProTrackerCompatibility::Disabled).unwrap(), 22050);
    // 0 Hz falls back to C-2.
    assert_eq!(resolve_sample_rate(&SampleFreqMode::Hz(0), 44100, false, ProTrackerCompatibility::Disabled).unwrap(), 8287);
    // C-3 (period 214): 7093789.2 / 428 = 16574.27 -> 16574.
    assert_eq!(resolve_sample_rate(&SampleFreqMode::High, 44100, false, ProTrackerCompatibility::Disabled).unwrap(), 16574);
    assert!(resolve_sample_rate(&SampleFreqMode::NoteName("X-2".to_string()), 44100, false, ProTrackerCompatibility::Disabled).is_err());
}

#[test]
fn channel_tags() {
    assert_eq!(channels_tag(4), b"M.K.".to_vec());
    assert_eq!(channels_tag(8), b"8CHN".to_vec());
    assert_eq!(write_name_bytes(std::str::from_utf8(&channels_tag(16)).unwrap(), 4), b"16CH".to_vec());
}

#[test]
fn song_length_and_sequence() {
    assert_eq!(get_song_length_data(3), [3, 0x7F]);
    let seq = get_pattern_sequence_data(&[2, 0, 1]);
    assert_eq!(&seq[0..3], &[2, 0, 1]);
    assert!(seq[3..].iter().all(|&b| b == 0));
    let long: Vec<u8> = (0..200u32).map(|i| (i % 7) as u8).collect();
    let seq = get_pattern_sequence_data(&long);
    assert_eq!(&seq[..], &long[..128]);
}

#[test]
fn names_are_truncated_or_padded() {
    assert_eq!(write_name_bytes("abc", 5), b"abc\0\0".to_vec());
    assert_eq!(write_name_bytes("abcdef", 4), b"abcd".to_vec());
}

fn encoded(len: usize, channels: u32) -> renoise2mod_core::mod_format::EncodedSample {
    renoise2mod_core::mod_format::EncodedSample {
        encoded_pcm: vec![0u8; len],
        sample_rate: 8287,
        pitch_units: 0,
        original_length_bytes: 200,
        original_channels: channels,
        original_bits_per_sample: 16,
    }
}

#[test]
fn recorded_sample_keeps_data_and_stores_lengths() {
    let mut enc = ModEncoder::new(2, 6, settings(), 1, false, false);
    let sample = renoise2mod_core::model::SampleData::new();
    let r = renoise2mod_core::mod_format::record_encoded_sample(1, &sample, Ok(Some(encoded(100, 1))), &mut enc);
    assert_eq!(r.unwrap().len(), 100);
    assert_eq!(enc.sample_length(1), 100);
    assert_eq!(enc.sample_length(0), 0);
    // 200 bytes of 16-bit mono are 100 frames, as many as the 100 encoded bytes: a loop point
    // of 40 frames stays at 40 bytes, 20 words.
    assert_eq!(enc.get_loop_value(40, 1), 20);
}

#[test]
fn recorded_sample_without_channels_is_refused() {
    let mut enc = ModEncoder::new(1, 6, settings(), 1, false, false);
    let sample = renoise2mod_core::model::SampleData::new();
    let r = renoise2mod_core::mod_format::record_encoded_sample(0, &sample, Ok(Some(encoded(10, 0))), &mut enc);
    assert!(matches!(
        r,
        Err(Error::Conversion(ConversionError::SampleWithoutChannels { instrument: 1, sample: 1 }))
    ));
    assert_eq!(enc.sample_length(0), 0);
}

#[test]
fn recorded_sample_too_long_is_refused() {
    let mut enc = ModEncoder::new(1, 6, settings(), 1, false, false);
    let sample = renoise2mod_core::model::SampleData::new();
    let r = renoise2mod_core::mod_format::record_encoded_sample(0, &sample, Ok(Some(encoded(65538, 1))), &mut enc);
    assert!(matches!(
        r,
        Err(Error::Conversion(ConversionError::SampleTooLarge { sample_number: 1, max_length: 65536, length: 65538 }))
    ));
}

#[test]
fn recorded_missing_or_failed_sample() {
    let mut enc = ModEncoder::new(1, 6, settings(), 1, false, false);
    let sample = renoise2mod_core::model::SampleData::new();
    let r = renoise2mod_core::mod_format::record_encoded_sample(0, &sample, Ok(None), &mut enc);
    assert_eq!(r.unwrap().len(), 0);
    let r = renoise2mod_core::mod_format::record_encoded_sample(0, &sample, Err(Error::MissingSongXml), &mut enc);
    assert!(matches!(r, Err(Error::MissingSongXml)));
}

#[test]
fn glide_beside_another_effect_is_a_glide_conflict() {
    assert!(matches!(
        ModEncoder::is_tone_portamento_triggered(Some("0A"), Some("G0"), None),
        Err(Error::Conversion(ConversionError::GlideConflict))
    ));
}

#[test]
fn note_beyond_the_period_table_is_out_of_range() {
    let mut enc = ModEncoder::new(1, 6, settings(), 1, false, false);
    assert!(matches!(
        enc.trigger_mod_note("C-9", -1, 0, false),
        Err(Error::Conversion(ConversionError::NoteOutOfRange(n))) if n == "C-9"
    ));
}
