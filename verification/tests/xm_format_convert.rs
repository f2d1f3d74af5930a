use renoise2mod_core::common::VolumeScalingMode;
use renoise2mod_core::error::Error;
use renoise2mod_core::mod_format::{ConversionLog, LogLevel, LogMessage};
use renoise2mod_core::model::{
    InstrumentData, LoopMode, MasterTrackLineData, PatternData, SampleData, SongData, TrackLineData,
};
use renoise2mod_core::xm_format::{self, EncodedXmSample, XmSampleSource, XmSettings};

struct StubSampleSource;

impl XmSampleSource for StubSampleSource {
    fn encode_sample(
        &self,
        _instrument_index: usize,
        _sample_index: usize,
        _sample: &SampleData,
        _settings: &XmSettings,
    ) -> Result<Option<EncodedXmSample>, Error> {
        Ok(Some(EncodedXmSample { encoded_pcm: vec![0u8; 50], sample_rate: 44100, pitch_units: 0, channels: 1, bits_per_sample: 8 }))
    }
}

struct CollectingLog {
    messages: Vec<(LogLevelKind, LogMessage)>,
}

#[derive(Debug, PartialEq)]
enum LogLevelKind {
    Info,
    Warning,
    Error,
}

impl ConversionLog for CollectingLog {
    fn log(&mut self, level: LogLevel, message: LogMessage) {
        let kind = match level {
            LogLevel::Info => LogLevelKind::Info,
            LogLevel::Warning => LogLevelKind::Warning,
            LogLevel::Error => LogLevelKind::Error,
        };
        self.messages.push((kind, message));
    }
}

fn build_song() -> SongData {
    let num_channels = 2;
    let num_rows = 4;
    let mut tracks_line_data = vec![TrackLineData::default(); num_rows * num_channels];
    tracks_line_data[0] = TrackLineData {
        is_set: true,
        note: Some("C-4".to_string()),
        instrument: Some("00".to_string()),
        volume: None,
        panning: None,
        delay: None,
        effect_number: String::new(),
        effect_value: String::new(),
    };
    let pattern = PatternData {
        num_rows,
        tracks_line_data,
        master_track_line_data: vec![MasterTrackLineData::default(); num_rows],
    };
    let mut instrument = InstrumentData { name: "Test Instrument".to_string(), ..Default::default() };
    instrument.key_map[48] = Some(0);
    instrument.samples.push(SampleData {
        name: "Test Sample".to_string(),
        loop_mode: LoopMode::Off,
        header_panning: 128,
        rel_note_number: 48,
        ..SampleData::new()
    });
    SongData {
        name: "XM Structural Test".to_string(),
        restart_position: 0,
        num_channels,
        num_master_track_columns: 1,
        initial_bpm: 125,
        lines_per_beat: 4,
        ticks_per_line: 6,
        sample_offset_compatibility_mode: false,
        pitch_compatibility_mode: false,
        playback_engine_version: 1,
        pattern_order_table: vec![0],
        patterns: vec![pattern],
        instruments: vec![instrument],
    }
}

fn default_settings() -> XmSettings {
    XmSettings { ticks_row: 6, tempo: 125, volume_scaling_mode: VolumeScalingMode::Disabled }
}

#[test]
fn produces_correctly_laid_out_xm_header() {
    let song = build_song();
    let settings = default_settings();
    let source = StubSampleSource;
    let mut log = CollectingLog { messages: Vec::new() };
    let output = xm_format::convert(&song, &settings, &source, &mut log).expect("conversion should succeed");
    assert_eq!(&output[0..17], b"Extended Module: ");
    assert_eq!(&output[17..35], b"XM Structural Test");
    assert_eq!(output[35], 0);
    assert_eq!(output[37], 0x1A);
    assert_eq!(&output[58..60], &[4, 1]);
    assert_eq!(u32::from_le_bytes(output[60..64].try_into().unwrap()), 276);
    assert_eq!(u16::from_le_bytes(output[64..66].try_into().unwrap()), 1);
    assert_eq!(u16::from_le_bytes(output[68..70].try_into().unwrap()), 2);
    assert_eq!(u16::from_le_bytes(output[70..72].try_into().unwrap()), 1);
    assert_eq!(u16::from_le_bytes(output[72..74].try_into().unwrap()), 1);
    assert_eq!(output[74], 1);
    assert_eq!(u16::from_le_bytes(output[76..78].try_into().unwrap()), 6);
    assert_eq!(u16::from_le_bytes(output[78..80].try_into().unwrap()), 125);
    assert_eq!(output[80], 0);
    let errors: Vec<_> = log.messages.iter().filter(|(k, _)| *k == LogLevelKind::Error).collect();
    assert!(errors.is_empty(), "unexpected errors: {errors:?}");
}

#[test]
fn writes_all_patterns_unconditionally() {
    let mut song = build_song();
    song.patterns.push(song.patterns[0].clone());
    let settings = default_settings();
    let source = StubSampleSource;
    let mut log = CollectingLog { messages: Vec::new() };
    let output = xm_format::convert(&song, &settings, &source, &mut log).expect("conversion should succeed");
    assert_eq!(u16::from_le_bytes(output[70..72].try_into().unwrap()), 2);
}

#[test]
fn pattern_and_instrument_layout() {
    let song = build_song();
    let mut log = CollectingLog { messages: Vec::new() };
    let output = xm_format::convert(&song, &default_settings(), &StubSampleSource, &mut log).unwrap();
    // pattern header at 336: header length 9, packing 0, 4 rows, data size
    assert_eq!(&output[336..341], &[9, 0, 0, 0, 0]);
    assert_eq!(u16::from_le_bytes(output[341..343].try_into().unwrap()), 4);
    let data_len = u16::from_le_bytes(output[343..345].try_into().unwrap()) as usize;
    // the first cell: flags note|instrument (0x83), note C-4 = 49, instrument 1; the other 7
    // cells are empty (0x80)
    assert_eq!(&output[345..348], &[0x83, 49, 1]);
    assert_eq!(data_len, 3 + 7);
    assert!(output[348..355].iter().all(|&b| b == 0x80));
    // instrument header follows: size 263, name, one sample
    let inst = 345 + data_len;
    assert_eq!(u32::from_le_bytes(output[inst..inst + 4].try_into().unwrap()), 263);
    assert_eq!(&output[inst + 4..inst + 19], b"Test Instrument");
    assert_eq!(u16::from_le_bytes(output[inst + 27..inst + 29].try_into().unwrap()), 1);
    assert_eq!(u32::from_le_bytes(output[inst + 29..inst + 33].try_into().unwrap()), 0x28);
    // key map: Renoise note 48 plays sample 0
    assert_eq!(output[inst + 33 + 48], 0);
    // sample header: length 50, volume 64, panning, relative note 0
    let sh = inst + 263;
    assert_eq!(u32::from_le_bytes(output[sh..sh + 4].try_into().unwrap()), 50);
    assert_eq!(output[sh + 12], 64);
    assert_eq!(output[sh + 15], 128);
    assert_eq!(output[sh + 16], 0);
    assert_eq!(&output[sh + 18..sh + 29], b"Test Sample");
    assert_eq!(output.len(), sh + 40 + 50);
}

#[test]
fn column_scaling_writes_scaled_volume_on_trigger() {
    let mut song = build_song();
    let factor = 0.5f32;
    let scaled: Vec<i32> = (-16i32..=255).map(|v| (v as f32 * factor) as i32).collect();
    let sv = factor * (64.0f32 / 64.0);
    song.instruments[0].samples[0].column_volume.needs_scaling = true;
    song.instruments[0].samples[0].column_volume.scaled = scaled;
    song.instruments[0].samples[0].column_volume.trigger_scaled = (64.0f32 * sv) as i32;
    let settings = XmSettings { ticks_row: 6, tempo: 125, volume_scaling_mode: VolumeScalingMode::Column };
    let mut log = CollectingLog { messages: Vec::new() };
    let output = xm_format::convert(&song, &settings, &StubSampleSource, &mut log).unwrap();
    // note, instrument and a set-volume of 32 + 0x10 in the volume column
    assert_eq!(&output[345..349], &[0x87, 49, 1, 0x30]);
}

struct SizedSampleSource(usize);

impl XmSampleSource for SizedSampleSource {
    fn encode_sample(
        &self,
        _instrument_index: usize,
        _sample_index: usize,
        _sample: &SampleData,
        _settings: &XmSettings,
    ) -> Result<Option<EncodedXmSample>, Error> {
        Ok(Some(EncodedXmSample { encoded_pcm: vec![0u8; self.0], sample_rate: 44100, pitch_units: 0, channels: 1, bits_per_sample: 8 }))
    }
}

#[test]
fn xm_sample_offset_overflowing_the_sample_length_is_refused() {
    let mut song = build_song();
    song.patterns[0].tracks_line_data[0].effect_number = "0S".to_string();
    song.patterns[0].tracks_line_data[0].effect_value = "FF".to_string();
    let mut log = CollectingLog { messages: Vec::new() };
    let result = xm_format::convert(&song, &default_settings(), &SizedSampleSource(8_500_000), &mut log);
    assert!(matches!(
        result,
        Err(Error::Conversion(renoise2mod_core::error::ConversionError::SampleOffsetOverflow))
    ));
    song.sample_offset_compatibility_mode = true;
    let result = xm_format::convert(&song, &default_settings(), &SizedSampleSource(8_500_000), &mut log);
    assert!(result.is_ok());
}

#[test]
fn xm_sample_offset_in_an_unset_cell_is_not_checked() {
    let mut song = build_song();
    song.patterns[0].tracks_line_data[1].effect_number = "0S".to_string();
    song.patterns[0].tracks_line_data[1].effect_value = "FF".to_string();
    song.patterns[0].tracks_line_data[1].note = Some("C-4".to_string());
    song.patterns[0].tracks_line_data[1].instrument = Some("00".to_string());
    song.patterns[0].tracks_line_data[1].is_set = false;
    let mut log = CollectingLog { messages: Vec::new() };
    let result = xm_format::convert(&song, &default_settings(), &SizedSampleSource(8_500_000), &mut log);
    assert!(result.is_ok());
}

struct StereoSampleSource;

impl XmSampleSource for StereoSampleSource {
    fn encode_sample(
        &self,
        _instrument_index: usize,
        _sample_index: usize,
        _sample: &SampleData,
        _settings: &XmSettings,
    ) -> Result<Option<EncodedXmSample>, Error> {
        Ok(Some(EncodedXmSample { encoded_pcm: vec![0u8; 64], sample_rate: 44100, pitch_units: 0, channels: 2, bits_per_sample: 16 }))
    }
}

#[test]
fn xm_loop_points_too_large_for_the_header_are_refused() {
    let mut song = build_song();
    song.instruments[0].samples[0].loop_mode = LoopMode::Forward;
    song.instruments[0].samples[0].loop_start = 2_000_000_000;
    song.instruments[0].samples[0].loop_end = 2_000_000_000;
    let mut log = CollectingLog { messages: Vec::new() };
    // 16-bit stereo: four bytes a frame, past the 32-bit header field
    let result = xm_format::convert(&song, &default_settings(), &StereoSampleSource, &mut log);
    assert!(matches!(
        result,
        Err(Error::Conversion(renoise2mod_core::error::ConversionError::SampleLoopOverflow { instrument: 1, sample: 1 }))
    ));
    // 8-bit mono: one byte a frame, which fits
    let result = xm_format::convert(&song, &default_settings(), &StubSampleSource, &mut log);
    assert!(result.is_ok());
}
