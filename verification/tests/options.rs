use renoise2mod_core::error::{ConversionError, Error};
use renoise2mod_core::model::SampleFreqMode;
use renoise2mod_core::options::{parse_sample_freq_mode, parse_u32};

#[test]
fn sample_rate_words_ignore_case() {
    assert_eq!(parse_sample_freq_mode("low").unwrap(), SampleFreqMode::Low);
    assert_eq!(parse_sample_freq_mode("HIGH").unwrap(), SampleFreqMode::High);
    assert_eq!(parse_sample_freq_mode("Max").unwrap(), SampleFreqMode::Maximum);
    assert_eq!(parse_sample_freq_mode("maximum").unwrap(), SampleFreqMode::Maximum);
    assert_eq!(parse_sample_freq_mode("Original").unwrap(), SampleFreqMode::Original);
}

#[test]
fn sample_rate_numbers_and_notes() {
    assert_eq!(parse_sample_freq_mode("22050").unwrap(), SampleFreqMode::Hz(22050));
    assert_eq!(parse_sample_freq_mode("+8000").unwrap(), SampleFreqMode::Hz(8000));
    assert_eq!(parse_sample_freq_mode("c-2").unwrap(), SampleFreqMode::NoteName("C-2".to_string()));
    assert_eq!(parse_sample_freq_mode("100").unwrap(), SampleFreqMode::Hz(100));
    assert!(matches!(
        parse_sample_freq_mode("fast"),
        Err(Error::Conversion(ConversionError::InvalidSampleRate(s))) if s == "fast"
    ));
    // too large for a u32, and not three bytes long
    assert!(parse_sample_freq_mode("99999999999").is_err());
}

#[test]
fn u32_parsing_matches_std() {
    for s in ["0", "42", "+7", "4294967295", "4294967296", "", "+", "-1", "12a", "007"] {
        assert_eq!(parse_u32(s), s.parse::<u32>().ok(), "{s}");
    }
}
