use renoise2mod_core::common::VolumeScalingMode;
use renoise2mod_core::error::{ConversionError, Error};
use renoise2mod_core::mod_format::period::ProTrackerCompatibility;
use renoise2mod_core::mod_format::{self, ConversionLog, EncodedSample, LogLevel, LogMessage, ModSampleSource, ModSettings};
use renoise2mod_core::model::{
    InstrumentData, LoopMode, MasterTrackLineData, PatternData, SampleData, SongData, TrackLineData,
};

struct StubSampleSource;

impl ModSampleSource for StubSampleSource {
    fn encode_sample(
        &self,
        _instrument_index: usize,
        _sample: &SampleData,
        _settings: &ModSettings,
    ) -> Result<Option<EncodedSample>, Error> {
        Ok(Some(EncodedSample {
            encoded_pcm: vec![0u8; 100],
            sample_rate: 8287,
            pitch_units: 0,
            original_length_bytes: 100,
            original_channels: 1,
            original_bits_per_sample: 8,
        }))
    }
}

struct CollectingLog {
    messages: Vec<(LogLevelKind, LogMessage)>,
}

#[derive(Debug, PartialEq)]
enum LogLevelKind {
    Info,
    Warning,
    Error,
}

impl ConversionLog for CollectingLog {
    fn log(&mut self, level: LogLevel, message: LogMessage) {
        let kind = match level {
            LogLevel::Info => LogLevelKind::Info,
            LogLevel::Warning => LogLevelKind::Warning,
            LogLevel::Error => LogLevelKind::Error,
        };
        self.messages.push((kind, message));
    }
}

fn build_song() -> SongData {
    let num_channels = 4;
    let num_rows = 4;
    let mut tracks_line_data = vec![TrackLineData::default(); num_rows * num_channels];
    tracks_line_data[0] = TrackLineData {
        is_set: true,
        note: Some("C-4".to_string()),
        instrument: Some("00".to_string()),
        volume: None,
        panning: None,
        delay: None,
        effect_number: String::new(),
        effect_value: String::new(),
    };
    let pattern = PatternData {
        num_rows,
        tracks_line_data,
        master_track_line_data: vec![MasterTrackLineData::default(); num_rows],
    };
    let mut instrument = InstrumentData { name: "Test Instrument".to_string(), ..Default::default() };
    instrument.key_map[48] = Some(0);
    instrument.samples.push(SampleData {
        name: "Test Sample".to_string(),
        loop_mode: LoopMode::Off,
        header_panning: 128,
        rel_note_number: 48,
        ..SampleData::new()
    });
    SongData {
        name: "Structural Test Song".to_string(),
        restart_position: 0,
        num_channels,
        num_master_track_columns: 1,
        initial_bpm: 125,
        lines_per_beat: 4,
        ticks_per_line: 6,
        sample_offset_compatibility_mode: false,
        pitch_compatibility_mode: false,
        playback_engine_version: 1,
        pattern_order_table: vec![0],
        patterns: vec![pattern],
        instruments: vec![instrument],
    }
}

fn default_settings() -> ModSettings {
    ModSettings {
        pro_tracker_compatibility: ProTrackerCompatibility::Disabled,
        ntsc_mode: false,
        portamento_loss_threshold: 2,
        volume_scaling_mode: VolumeScalingMode::Disabled,
    }
}

#[test]
fn produces_correctly_laid_out_mod_file() {
    let song = build_song();
    let settings = default_settings();
    let source = StubSampleSource;
    let mut log = CollectingLog { messages: Vec::new() };
    let output = mod_format::convert(&song, &settings, &source, &mut log).expect("conversion should succeed");
    assert_eq!(&output[0..20], b"Structural Test Song");
    assert_eq!(&output[20..36], b"Test Instrument\0");
    assert_eq!(output[950], 1);
    assert_eq!(output[951], 0x7F);
    assert_eq!(output[952], 0);
    assert_eq!(&output[953..1080], vec![0u8; 127].as_slice());
    assert_eq!(&output[1080..1084], b"M.K.");
    let pattern_data_len = 64 * 4 * 4;
    assert_eq!(output.len(), 1084 + pattern_data_len + 100);
    let cell = &output[1084..1088];
    assert_eq!(cell, &[0x01, 0xAC, 0x10, 0x00]);
    let errors: Vec<_> = log.messages.iter().filter(|(k, _)| *k == LogLevelKind::Error).collect();
    assert!(errors.is_empty(), "unexpected errors: {errors:?}");
}

#[test]
fn rejects_songs_with_fewer_than_four_channels() {
    let mut song = build_song();
    song.num_channels = 2;
    let settings = default_settings();
    let source = StubSampleSource;
    let mut log = CollectingLog { messages: Vec::new() };
    let result = mod_format::convert(&song, &settings, &source, &mut log);
    assert!(result.is_err());
}

#[test]
fn rejects_column_volume_scaling_mode() {
    let song = build_song();
    let mut settings = default_settings();
    settings.volume_scaling_mode = VolumeScalingMode::Column;
    let source = StubSampleSource;
    let mut log = CollectingLog { messages: Vec::new() };
    let result = mod_format::convert(&song, &settings, &source, &mut log);
    assert!(result.is_err());
}

#[test]
fn sample_header_slot_fields() {
    let song = build_song();
    let mut log = CollectingLog { messages: Vec::new() };
    let output = mod_format::convert(&song, &default_settings(), &StubSampleSource, &mut log).unwrap();
    // slot 0: length in words (100 / 2), finetune nibble 0, volume 64; without a loop the
    // loop fields keep their blank value (loop length low byte 1)
    assert_eq!(&output[42..44], &[0, 50]);
    assert_eq!(output[44], 0);
    assert_eq!(output[45], 64);
    assert_eq!(&output[46..50], &[0, 0, 0, 1]);
    // slot 1 is blank but for the loop length low byte
    assert_eq!(&output[50..79], vec![0u8; 29].as_slice());
    assert_eq!(output[79], 1);
}

#[test]
fn missing_pattern_is_refused() {
    let mut song = build_song();
    song.pattern_order_table = vec![0, 3];
    let mut log = CollectingLog { messages: Vec::new() };
    let result = mod_format::convert(&song, &default_settings(), &StubSampleSource, &mut log);
    assert!(matches!(result, Err(Error::Conversion(ConversionError::MissingPattern(3)))));
}

#[test]
fn patterns_land_at_their_index() {
    let mut song = build_song();
    let mut second = song.patterns[0].clone();
    second.tracks_line_data[0].note = Some("D-4".to_string());
    song.patterns.push(second);
    song.pattern_order_table = vec![1, 0, 1];
    let mut log = CollectingLog { messages: Vec::new() };
    let output = mod_format::convert(&song, &default_settings(), &StubSampleSource, &mut log).unwrap();
    assert_eq!(output.len(), 1084 + 2 * 1024 + 100);
    assert_eq!(output[950], 3);
    // pattern 0 at 1084 holds C-4 (period 428), pattern 1 at 1084 + 1024 holds D-4 (period 381)
    assert_eq!(&output[1084..1088], &[0x01, 0xAC, 0x10, 0x00]);
    assert_eq!(&output[2108..2112], &[0x01, 0x7D, 0x10, 0x00]);
}

#[test]
fn eight_channel_tag() {
    let mut song = build_song();
    song.num_channels = 8;
    song.patterns[0].tracks_line_data = vec![TrackLineData::default(); 4 * 8];
    let mut log = CollectingLog { messages: Vec::new() };
    let output = mod_format::convert(&song, &default_settings(), &StubSampleSource, &mut log).unwrap();
    assert_eq!(&output[1080..1084], b"8CHN");
    assert_eq!(output.len(), 1084 + 64 * 4 * 8 + 100);
}

struct SizedSampleSource(usize);

impl ModSampleSource for SizedSampleSource {
    fn encode_sample(
        &self,
        _instrument_index: usize,
        _sample: &SampleData,
        _settings: &ModSettings,
    ) -> Result<Option<EncodedSample>, Error> {
        Ok(Some(EncodedSample {
            encoded_pcm: vec![0u8; self.0],
            sample_rate: 8287,
            pitch_units: 0,
            original_length_bytes: self.0 as i64,
            original_channels: 1,
            original_bits_per_sample: 8,
        }))
    }
}

fn song_with_sample_offset(value: &str) -> SongData {
    let mut song = build_song();
    song.patterns[0].tracks_line_data[0].effect_number = "0S".to_string();
    song.patterns[0].tracks_line_data[0].effect_value = value.to_string();
    song
}

#[test]
fn sample_offset_scales_to_the_sample_length() {
    let song = song_with_sample_offset("80");
    let mut log = CollectingLog { messages: Vec::new() };
    let output = mod_format::convert(&song, &default_settings(), &SizedSampleSource(65536), &mut log).unwrap();
    // half-way into a 65536-byte sample: 0x80 256-byte units
    assert_eq!(&output[1084..1088], &[0x01, 0xAC, 0x19, 0x80]);
}

#[test]
fn sample_offset_overflowing_the_sample_length_is_refused() {
    let song = song_with_sample_offset("FF");
    let mut log = CollectingLog { messages: Vec::new() };
    let result = mod_format::convert(&song, &default_settings(), &SizedSampleSource(8_500_000), &mut log);
    assert!(matches!(result, Err(Error::Conversion(ConversionError::SampleOffsetOverflow))));
}

#[test]
fn sample_offset_in_a_pattern_the_sequence_skips_is_not_checked() {
    let mut song = build_song();
    let mut unused = song.patterns[0].clone();
    unused.tracks_line_data[0].effect_number = "0S".to_string();
    unused.tracks_line_data[0].effect_value = "FF".to_string();
    song.patterns.push(unused);
    let mut log = CollectingLog { messages: Vec::new() };
    let result = mod_format::convert(&song, &default_settings(), &SizedSampleSource(8_500_000), &mut log);
    assert!(result.is_ok());
}

#[test]
fn sample_offset_in_an_unset_cell_is_not_checked() {
    let mut song = song_with_sample_offset("FF");
    song.patterns[0].tracks_line_data[1] = song.patterns[0].tracks_line_data[0].clone();
    song.patterns[0].tracks_line_data[1].is_set = false;
    song.patterns[0].tracks_line_data[0].effect_number = String::new();
    song.patterns[0].tracks_line_data[0].effect_value = String::new();
    let mut log = CollectingLog { messages: Vec::new() };
    let result = mod_format::convert(&song, &default_settings(), &SizedSampleSource(8_500_000), &mut log);
    assert!(result.is_ok());
}

#[test]
fn missing_pattern_earlier_in_the_sequence_is_reported_first() {
    let mut song = song_with_sample_offset("FF");
    song.pattern_order_table = vec![1, 0];
    let mut log = CollectingLog { messages: Vec::new() };
    let result = mod_format::convert(&song, &default_settings(), &SizedSampleSource(8_500_000), &mut log);
    assert!(matches!(result, Err(Error::Conversion(ConversionError::MissingPattern(1)))));
    song.pattern_order_table = vec![0, 1];
    let result = mod_format::convert(&song, &default_settings(), &SizedSampleSource(8_500_000), &mut log);
    assert!(matches!(result, Err(Error::Conversion(ConversionError::SampleOffsetOverflow))));
}

#[test]
fn sample_offset_compatibility_mode_uses_the_raw_value() {
    let mut song = song_with_sample_offset("FF");
    song.sample_offset_compatibility_mode = true;
    let mut log = CollectingLog { messages: Vec::new() };
    let output = mod_format::convert(&song, &default_settings(), &SizedSampleSource(8_500_000), &mut log).unwrap();
    assert_eq!(&output[1084..1088], &[0x01, 0xAC, 0x19, 0xFF]);
    // the sample is too long for MOD: it is logged and written empty
    assert!(log.messages.iter().any(|(_, m)| matches!(
        m,
        LogMessage::SampleFailed(Error::Conversion(ConversionError::SampleTooLarge { sample_number: 1, .. }))
    )));
    assert_eq!(output.len(), 1084 + 1024);
}

#[test]
fn refusals_name_their_reason() {
    let mut log = CollectingLog { messages: Vec::new() };
    let mut song = build_song();
    song.num_channels = 2;
    assert!(matches!(
        mod_format::convert(&song, &default_settings(), &StubSampleSource, &mut log),
        Err(Error::Conversion(ConversionError::TooFewChannels))
    ));
    let mut settings = default_settings();
    settings.volume_scaling_mode = VolumeScalingMode::Column;
    assert!(matches!(
        mod_format::convert(&build_song(), &settings, &StubSampleSource, &mut log),
        Err(Error::Conversion(ConversionError::InvalidVolumeScalingMode))
    ));
}

#[test]
fn a_written_cell_reads_back() {
    let song = song_with_sample_offset("80");
    let mut log = CollectingLog { messages: Vec::new() };
    let output = mod_format::convert(&song, &default_settings(), &SizedSampleSource(65536), &mut log).unwrap();
    let b = &output[1084..1088];
    let sample_number = (b[0] & 0xF0) | (b[2] >> 4);
    let period = (((b[0] & 0x0F) as u16) << 8) | b[1] as u16;
    assert_eq!((sample_number, period, b[2] & 0x0F, b[3]), (1, 428, 0x9, 0x80));
}

struct SilentSampleSource;

impl ModSampleSource for SilentSampleSource {
    fn encode_sample(
        &self,
        _instrument_index: usize,
        _sample: &SampleData,
        _settings: &ModSettings,
    ) -> Result<Option<EncodedSample>, Error> {
        Ok(None)
    }
}

#[test]
fn reversed_loop_of_a_sample_without_data_is_not_read() {
    let mut song = build_song();
    song.instruments[0].samples[0].loop_mode = LoopMode::Forward;
    song.instruments[0].samples[0].loop_start = 100;
    song.instruments[0].samples[0].loop_end = 10;
    let mut log = CollectingLog { messages: Vec::new() };
    let output = mod_format::convert(&song, &default_settings(), &SilentSampleSource, &mut log).unwrap();
    // an empty sample: zero length, no loop, the loop-length word left at 1
    assert_eq!(&output[42..44], &[0, 0]);
    assert_eq!(&output[46..50], &[0, 0, 0, 1]);
}
