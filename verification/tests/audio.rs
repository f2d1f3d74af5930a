use renoise2mod_core::audio::{
    encode_mod_sample, encode_xm_delta_16bit_mono, encode_xm_delta_16bit_stereo, encode_xm_delta_8bit_mono,
    encode_xm_delta_8bit_stereo,
};
use renoise2mod_core::mod_format::period::ProTrackerCompatibility;
use renoise2mod_core::sample_file::{check_sample_extension, find_sample_file, sample_extension, sample_file_pattern_string};

#[test]
fn encode_mod_sample_sign_flips_and_pads_to_even_length() {
    let encoded = encode_mod_sample(&[128, 255, 0], ProTrackerCompatibility::Disabled);
    assert_eq!(encoded, vec![0, 127, 128, 0]);
}

#[test]
fn encode_mod_sample_prefixes_silence_for_pt_compat() {
    let encoded = encode_mod_sample(&[200, 50], ProTrackerCompatibility::B3Max);
    assert_eq!(encoded, vec![0, 0, 200u8.wrapping_sub(128), 50u8.wrapping_sub(128)]);
}

#[test]
fn encode_mod_sample_silent_start_needs_no_prefix() {
    let encoded = encode_mod_sample(&[128, 128, 10], ProTrackerCompatibility::A3Max);
    assert_eq!(encoded, vec![0, 0, 10u8.wrapping_sub(128), 0]);
    assert_eq!(encode_mod_sample(&[], ProTrackerCompatibility::A3Max), Vec::<u8>::new());
}

#[test]
fn xm_delta_8bit_mono_encodes_running_difference_from_128() {
    let encoded = encode_xm_delta_8bit_mono(&[128, 130, 120]);
    assert_eq!(encoded, vec![0, 2, (120i32 - 130i32) as u8]);
}

#[test]
fn xm_delta_8bit_stereo_deinterleaves_by_byte_parity() {
    let encoded = encode_xm_delta_8bit_stereo(&[130, 140, 120, 150]);
    let left = vec![(130i32 - 128) as u8, (120i32 - 130) as u8];
    let right = vec![(140i32 - 128) as u8, (150i32 - 140) as u8];
    let mut expected = left;
    expected.extend(right);
    assert_eq!(encoded, expected);
}

#[test]
fn xm_delta_16bit_mono_encodes_running_difference_from_zero() {
    let encoded = encode_xm_delta_16bit_mono(&[100, 50]);
    let mut expected = 100i16.to_le_bytes().to_vec();
    expected.extend_from_slice(&(-50i16).to_le_bytes());
    assert_eq!(encoded, expected);
}

#[test]
fn xm_delta_16bit_stereo_deinterleaves_by_sample_parity() {
    let encoded = encode_xm_delta_16bit_stereo(&[100, 200, 150, 250]);
    let mut expected = 100i16.to_le_bytes().to_vec();
    expected.extend_from_slice(&50i16.to_le_bytes());
    expected.extend_from_slice(&200i16.to_le_bytes());
    expected.extend_from_slice(&50i16.to_le_bytes());
    assert_eq!(encoded, expected);
}

#[test]
fn delta_8bit_round_trip() {
    let samples: Vec<u8> = vec![0, 255, 128, 3, 200, 1];
    let encoded = encode_xm_delta_8bit_mono(&samples);
    let mut prev: u8 = 128;
    let decoded: Vec<u8> = encoded
        .iter()
        .map(|&d| {
            prev = prev.wrapping_add(d);
            prev
        })
        .collect();
    assert_eq!(decoded, samples);
}

#[test]
fn delta_16bit_round_trip_wraps() {
    let samples: Vec<i16> = vec![32767, -32768, 0, -1, 12345];
    let encoded = encode_xm_delta_16bit_mono(&samples);
    let mut prev: i16 = 0;
    let decoded: Vec<i16> = encoded
        .chunks(2)
        .map(|c| {
            prev = prev.wrapping_add(i16::from_le_bytes([c[0], c[1]]));
            prev
        })
        .collect();
    assert_eq!(decoded, samples);
}

#[test]
fn odd_length_stereo_puts_extra_sample_left() {
    let encoded = encode_xm_delta_8bit_stereo(&[130, 140, 120]);
    assert_eq!(encoded, vec![2, (120i32 - 130) as u8, 12]);
}

#[test]
fn sample_file_pattern_is_zero_padded() {
    assert_eq!(
        sample_file_pattern_string(3, 0),
        r"SampleData/Instrument03.*/Sample00.*\.(wav|aiff?|ogg|flac|mp3|aac)$"
    );
    assert_eq!(
        sample_file_pattern_string(123, 10),
        r"SampleData/Instrument123.*/Sample10.*\.(wav|aiff?|ogg|flac|mp3|aac)$"
    );
}

#[test]
fn finds_first_matching_sample_file_case_insensitively() {
    let names = vec![
        "Song.xml".to_string(),
        "SampleData/Instrument01 (Bass)/Sample00 (C-4).txt".to_string(),
        "SampleData/Instrument01 (Bass)/Sample00 (C-4).WAV".to_string(),
        "SampleData/Instrument01 (Bass)/Sample00 (D-4).flac".to_string(),
    ];
    assert_eq!(find_sample_file(&names, 1, 0).unwrap(), Some(2));
    assert_eq!(find_sample_file(&names, 2, 0).unwrap(), None);
    assert_eq!(find_sample_file(&names, 1, 1).unwrap(), None);
}

#[test]
fn sample_extensions() {
    assert_eq!(sample_extension("a/b.c/Sample00.FLAC"), b"flac".to_vec());
    assert_eq!(sample_extension("noext"), b"noext".to_vec());
    assert!(check_sample_extension("x/Sample00.AAC").is_err());
    assert_eq!(check_sample_extension("x/Sample00.Wav").unwrap(), b"wav".to_vec());
}

#[test]
fn xm_delta_8bit_mono_running_sum_restores_the_samples() {
    let pcm = [128u8, 130, 120, 0, 255];
    let encoded = renoise2mod_core::audio::encode_xm_delta_8bit_mono(&pcm);
    assert_eq!(&encoded[..3], &[0, 2, 0xF6]);
    let mut prev = 128u8;
    let decoded: Vec<u8> = encoded.iter().map(|d| { prev = prev.wrapping_add(*d); prev }).collect();
    assert_eq!(decoded, pcm.to_vec());
}
