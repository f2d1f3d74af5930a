use renoise2mod_core::error::Error;
use renoise2mod_core::model::LoopMode;
use renoise2mod_core::xrns::{read_song_xml, SongXml};

const SONG_XML: &str = r#"<?xml version="1.0" encoding="UTF-8"?>
<RenoiseSong doc_version="1">
  <GlobalSongData>
    <SongName>Unit Test Song</SongName>
    <BeatsPerMin>140</BeatsPerMin>
    <LinesPerBeat>4</LinesPerBeat>
    <TicksPerLine>6</TicksPerLine>
    <PlaybackEngineVersion>1</PlaybackEngineVersion>
    <SampleOffsetCompatibilityMode>true</SampleOffsetCompatibilityMode>
    <PitchEffectsCompatibilityMode>false</PitchEffectsCompatibilityMode>
  </GlobalSongData>
  <PatternSequence>
    <LoopSelection>
      <CursorPos>0</CursorPos>
    </LoopSelection>
    <SequenceEntries>
      <SequenceEntry>
        <Pattern>0</Pattern>
      </SequenceEntry>
      <SequenceEntry>
        <Pattern>0</Pattern>
      </SequenceEntry>
    </SequenceEntries>
  </PatternSequence>
  <Tracks>
    <SequencerTrack>
      <NumberOfVisibleNoteColumns>2</NumberOfVisibleNoteColumns>
    </SequencerTrack>
    <SequencerTrack>
      <NumberOfVisibleNoteColumns>1</NumberOfVisibleNoteColumns>
    </SequencerTrack>
    <SequencerMasterTrack>
      <NumberOfVisibleEffectColumns>1</NumberOfVisibleEffectColumns>
    </SequencerMasterTrack>
  </Tracks>
  <Instruments>
    <Instrument>
      <Name>Test Instrument</Name>
      <SampleGenerator>
        <ModulationSets>
          <ModulationSet>
            <Devices>
            </Devices>
          </ModulationSet>
        </ModulationSets>
        <Samples>
          <Sample>
            <Name>Test Sample</Name>
            <Volume>0.8</Volume>
            <Panning>0.5</Panning>
            <FineTune>0</FineTune>
            <Transpose>0</Transpose>
            <LoopStart>0</LoopStart>
            <LoopEnd>0</LoopEnd>
            <LoopMode>Off</LoopMode>
            <Mapping>
              <BaseNote>48</BaseNote>
              <NoteStart>0</NoteStart>
              <NoteEnd>119</NoteEnd>
            </Mapping>
          </Sample>
        </Samples>
      </SampleGenerator>
    </Instrument>
  </Instruments>
  <PatternPool>
    <Patterns>
      <Pattern>
        <NumberOfLines>4</NumberOfLines>
        <Tracks>
          <PatternTrack>
            <Lines>
              <Line index="0">
                <NoteColumns>
                  <NoteColumn>
                    <Note>C-4</Note>
                    <Instrument>00</Instrument>
                  </NoteColumn>
                  <NoteColumn>
                  </NoteColumn>
                </NoteColumns>
                <EffectColumns>
                  <EffectColumn>
                    <Number>0G</Number>
                    <Value>10</Value>
                  </EffectColumn>
                </EffectColumns>
              </Line>
            </Lines>
          </PatternTrack>
          <PatternTrack>
            <Lines>
              <Line index="1">
                <NoteColumns>
                  <NoteColumn>
                    <Note>OFF</Note>
                  </NoteColumn>
                </NoteColumns>
              </Line>
            </Lines>
          </PatternTrack>
          <PatternMasterTrack>
            <Lines>
              <Line index="2">
                <EffectColumns>
                  <EffectColumn>
                    <Number>ZT</Number>
                    <Value>78</Value>
                  </EffectColumn>
                </EffectColumns>
              </Line>
            </Lines>
          </PatternMasterTrack>
        </Tracks>
      </Pattern>
    </Patterns>
  </PatternPool>
</RenoiseSong>
"#;

const ENVELOPE_SONG_XML: &str = r#"<?xml version="1.0" encoding="UTF-8"?>
<RenoiseSong doc_version="1">
  <GlobalSongData>
    <SongName>Envelope Test</SongName>
  </GlobalSongData>
  <Instruments>
    <Instrument>
      <Name>Test Instrument</Name>
      <SampleGenerator>
        <ModulationSets>
          <ModulationSet>
            <Devices>
              <SampleCompatibilityModulationDevice type="SampleCompatibilityModulationDevice">
                <IsActive>
                  <Value>1.0</Value>
                </IsActive>
                <Target>Volume</Target>
                <EnvelopeIsActive>true</EnvelopeIsActive>
                <EnvelopeSustainIsActive>true</EnvelopeSustainIsActive>
                <EnvelopeSustainPos>2</EnvelopeSustainPos>
                <EnvelopeLoopStart>0</EnvelopeLoopStart>
                <EnvelopeLoopEnd>0</EnvelopeLoopEnd>
                <EnvelopeLoopMode>Off</EnvelopeLoopMode>
                <EnvelopeDecay>
                  <Value>1024</Value>
                </EnvelopeDecay>
                <EnvelopeNodes>
                  <PlayMode>Lines</PlayMode>
                  <Points>
                    <Point>0,1.0,0.0</Point>
                    <Point>1,1.0,0.0</Point>
                    <Point>2,1.0,0.0</Point>
                    <Point>6,0.765625,0.0</Point>
                    <Point>182,0.0,0.0</Point>
                  </Points>
                </EnvelopeNodes>
              </SampleCompatibilityModulationDevice>
              <SampleCompatibilityModulationDevice type="SampleCompatibilityModulationDevice">
                <IsActive>
                  <Value>1.0</Value>
                </IsActive>
                <Target>Panning</Target>
                <EnvelopeIsActive>false</EnvelopeIsActive>
                <EnvelopeSustainIsActive>false</EnvelopeSustainIsActive>
                <EnvelopeSustainPos>0</EnvelopeSustainPos>
                <EnvelopeLoopStart>0</EnvelopeLoopStart>
                <EnvelopeLoopEnd>0</EnvelopeLoopEnd>
                <EnvelopeLoopMode>Off</EnvelopeLoopMode>
                <EnvelopeDecay>
                  <Value>128</Value>
                </EnvelopeDecay>
                <EnvelopeNodes>
                  <PlayMode>Lines</PlayMode>
                </EnvelopeNodes>
              </SampleCompatibilityModulationDevice>
            </Devices>
          </ModulationSet>
        </ModulationSets>
        <Samples>
          <Sample>
            <Name>Test Sample</Name>
            <Volume>1.0</Volume>
          </Sample>
        </Samples>
      </SampleGenerator>
    </Instrument>
  </Instruments>
</RenoiseSong>
"#;

fn read_fixture() -> SongXml {
    read_song_xml(SONG_XML).unwrap()
}

#[test]
fn extracts_song_level_fields() {
    let song = read_fixture().song;

    assert_eq!(song.name, "Unit Test Song");
    assert_eq!(song.initial_bpm, 140);
    assert_eq!(song.lines_per_beat, 4);
    assert_eq!(song.ticks_per_line, 6);
    assert_eq!(song.playback_engine_version, 1);
    assert!(song.sample_offset_compatibility_mode);
    assert!(!song.pitch_compatibility_mode);
    assert_eq!(song.restart_position, 0);
    assert_eq!(song.pattern_order_table, vec![0, 0]);
}

#[test]
fn flattens_channel_width_across_tracks() {
    let song = read_fixture().song;

    // track 0 has 2 note columns, track 1 has 1 -> 3 channels total.
    assert_eq!(song.num_channels, 3);
    // one master-track column is read
    assert_eq!(song.num_master_track_columns, 1);
}

#[test]
fn extracts_pattern_cells_at_correct_flattened_index() {
    let song = read_fixture().song;

    assert_eq!(song.patterns.len(), 1);
    let pattern = &song.patterns[0];
    assert_eq!(pattern.num_rows, 4);

    // channel 0 (track 0, col 0), row 0: note C-4, instrument 00, effect 0G/10
    let cell = pattern.track_line(0, 0, song.num_channels);
    assert!(cell.is_set);
    assert_eq!(cell.note.as_deref(), Some("C-4"));
    assert_eq!(cell.instrument.as_deref(), Some("00"));
    assert_eq!(cell.effect_number, "0G");
    assert_eq!(cell.effect_value, "10");

    // channel 1 (track 0, col 1) shares track 0's single effect column.
    let cell1 = pattern.track_line(0, 1, song.num_channels);
    assert_eq!(cell1.effect_number, "0G");
    assert_eq!(cell1.effect_value, "10");
    assert!(cell1.note.is_none());

    // channel 2 (track 1, col 0), row 1: note OFF, no effect column data on this track/row.
    let cell2 = pattern.track_line(1, 2, song.num_channels);
    assert_eq!(cell2.note.as_deref(), Some("OFF"));

    // master track, row 2, col 0: ZT/78
    let master_cell = pattern.master_line(2, 0, song.num_master_track_columns);
    assert_eq!(master_cell.effect_number, "ZT");
    assert_eq!(master_cell.effect_value, "78");
}

#[test]
fn extracts_instrument_and_sample_and_keymap() {
    let read = read_fixture();
    let song = read.song;

    assert_eq!(song.instruments.len(), 1);
    let instrument = &song.instruments[0];
    assert_eq!(instrument.name, "Test Instrument");
    assert_eq!(instrument.samples.len(), 1);

    let sample = &instrument.samples[0];
    assert_eq!(sample.name, "Test Sample");
    let volume: f32 = read.instruments[0].samples[0].volume.as_deref().unwrap().parse().unwrap();
    assert!((volume - 0.8).abs() < f32::EPSILON);
    assert_eq!(sample.rel_note_number, 48);
    assert_eq!(sample.loop_mode, LoopMode::Off);

    // full note range 0..=119 mapped to sample slot 0.
    assert_eq!(instrument.key_map[0], Some(0));
    assert_eq!(instrument.key_map[60], Some(0));
    assert_eq!(instrument.key_map[119], Some(0));
}

#[test]
fn extracts_volume_envelope_with_real_schema_field_names_and_point_format() {
    let read = read_song_xml(ENVELOPE_SONG_XML).unwrap();
    let vol_env = read.instruments[0].volume_envelope.as_ref().unwrap();

    assert!(vol_env.enabled, "EnvelopeIsActive should be read, not the device's own IsActive");
    assert!(vol_env.sustain_enabled);
    assert_eq!(vol_env.sustain_pos.as_deref(), Some("2"));
    assert!(!vol_env.loop_enabled);
    assert_eq!(vol_env.fade_out, 1024, "fade_out should come from EnvelopeDecay/Value");

    // all five "x,y,curve" points are kept
    assert_eq!(vol_env.points.len(), 5);
    let xy = |p: &str| {
        let mut parts = p.split(',');
        let x: f32 = parts.next().unwrap().parse().unwrap();
        let y: f32 = parts.next().unwrap().parse().unwrap();
        (x, y)
    };
    assert_eq!(xy(&vol_env.points[0]), (0.0, 1.0));
    assert_eq!(xy(&vol_env.points[3]), (6.0, 0.765625));
    assert_eq!(xy(&vol_env.points[4]), (182.0, 0.0));

    let pan_env = read.instruments[0].panning_envelope.as_ref().unwrap();
    assert!(!pan_env.enabled);
    assert_eq!(pan_env.points.len(), 0);
}

#[test]
fn root_other_than_renoise_song_is_refused() {
    let result = read_song_xml("<Song><GlobalSongData/></Song>");
    match result {
        Err(Error::MalformedSong(m)) => assert_eq!(m, "the root element is not RenoiseSong"),
        _ => panic!("expected a malformed-song error"),
    }
}

#[test]
fn text_that_is_not_xml_is_refused() {
    assert!(matches!(read_song_xml("<RenoiseSong>"), Err(Error::Xml(_))));
}

#[test]
fn missing_settings_take_their_defaults() {
    let read = read_song_xml("<RenoiseSong><PatternPool><Patterns><Pattern/></Patterns></PatternPool></RenoiseSong>").unwrap();
    let song = read.song;
    assert_eq!(song.name, "");
    assert_eq!(song.initial_bpm, 125);
    assert_eq!(song.lines_per_beat, 4);
    assert_eq!(song.ticks_per_line, 6);
    assert_eq!(song.playback_engine_version, 0);
    assert_eq!(song.num_channels, 0);
    assert_eq!(song.num_master_track_columns, 0);
    assert_eq!(song.patterns.len(), 1);
    assert_eq!(song.patterns[0].num_rows, 64);
    assert!(song.patterns[0].tracks_line_data.is_empty());
}

#[test]
fn values_are_trimmed_and_out_of_range_numbers_fall_back() {
    let xml = "<RenoiseSong><GlobalSongData><SongName>  Padded \n</SongName><BeatsPerMin>-5</BeatsPerMin>\
        <LinesPerBeat>+8</LinesPerBeat></GlobalSongData>\
        <PatternSequence><SequenceEntries><SequenceEntry><Pattern>300</Pattern></SequenceEntry>\
        <SequenceEntry><Pattern> 2 </Pattern></SequenceEntry></SequenceEntries></PatternSequence></RenoiseSong>";
    let song = read_song_xml(xml).unwrap().song;
    assert_eq!(song.name, "Padded");
    assert_eq!(song.initial_bpm, 125);
    assert_eq!(song.lines_per_beat, 8);
    assert_eq!(song.pattern_order_table, vec![2]);
}

#[test]
fn second_track_channels_follow_the_first_track() {
    let xml = "<RenoiseSong><Tracks>\
        <SequencerTrack><NumberOfVisibleNoteColumns>2</NumberOfVisibleNoteColumns></SequencerTrack>\
        <SequencerTrack><NumberOfVisibleNoteColumns>3</NumberOfVisibleNoteColumns></SequencerTrack>\
        <SequencerMasterTrack><NumberOfVisibleEffectColumns>4</NumberOfVisibleEffectColumns></SequencerMasterTrack>\
        </Tracks><PatternPool><Patterns><Pattern><NumberOfLines>2</NumberOfLines><Tracks>\
        <PatternTrack/>\
        <PatternTrack><Lines><Line index=\"1\"><NoteColumns><NoteColumn/><NoteColumn><Note>D-3</Note></NoteColumn>\
        </NoteColumns></Line><Line index=\"7\"><NoteColumns><NoteColumn><Note>E-3</Note></NoteColumn></NoteColumns></Line>\
        </Lines></PatternTrack></Tracks></Pattern></Patterns></PatternPool></RenoiseSong>";
    let song = read_song_xml(xml).unwrap().song;
    assert_eq!(song.num_channels, 5);
    assert_eq!(song.num_master_track_columns, 1);
    let pattern = &song.patterns[0];
    assert_eq!(pattern.tracks_line_data.len(), 10);
    // row 1, channel 2 + 1 = 3
    assert_eq!(pattern.tracks_line_data[1 * 5 + 3].note.as_deref(), Some("D-3"));
    assert!(pattern.tracks_line_data[1 * 5 + 3].is_set);
    assert!(!pattern.tracks_line_data[1 * 5 + 2].is_set);
    // a line past the pattern's rows is ignored
    assert!(pattern.tracks_line_data.iter().all(|c| c.note.as_deref() != Some("E-3")));
}
