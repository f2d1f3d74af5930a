//! Reading the sample rate choice given on the command line.
use vstd::prelude::*;
use vstd::string::*;
use vstd::utf8::encode_utf8;

use crate::error::{ConversionError, Error};
use crate::model::SampleFreqMode;

verus! {

/// ASCII lowercase of a character.
pub open spec fn ascii_lower_char(c: char) -> char {
    if 'A' <= c && c <= 'Z' { ((c as u32) + 32) as char } else { c }
}

/// ASCII uppercase of a character.
pub open spec fn ascii_upper_char(c: char) -> char {
    if 'a' <= c && c <= 'z' { ((c as u32) - 32) as char } else { c }
}

/// `s` equals the lowercase word `word` ignoring ASCII case.
pub open spec fn is_word(s: Seq<char>, word: Seq<char>) -> bool {
    s.len() == word.len() && forall|i: int| 0 <= i < s.len() ==> #[trigger] ascii_lower_char(s[i]) == word[i]
}

/// The value of a string of decimal digits (most significant first).
pub open spec fn digits_value(s: Seq<char>) -> int
    decreases s.len(),
{
    if s.len() == 0 { 0 } else { 10 * digits_value(s.drop_last()) + (s.last() as int - '0' as int) }
}

/// The characters after an optional leading `+`.
pub open spec fn unsigned_digits(s: Seq<char>) -> Seq<char> {
    if s.len() > 0 && s[0] == '+' { s.drop_first() } else { s }
}

/// Every character is a decimal digit.
pub open spec fn all_decimal(s: Seq<char>) -> bool {
    forall|i: int| 0 <= i < s.len() ==> '0' <= #[trigger] s[i] && s[i] <= '9'
}

/// What `u32::from_str` accepts: an optional `+`, then one or more decimal digits whose value
/// fits a `u32`.
pub open spec fn parse_u32_spec(s: Seq<char>) -> Option<u32> {
    let digits = unsigned_digits(s);
    if digits.len() > 0 && all_decimal(digits) && digits_value(digits) <= u32::MAX {
        Some(digits_value(digits) as u32)
    } else {
        None
    }
}

/// The sample rate choice a command-line word names: `low`, `high`, `maximum` (or `max`),
/// `original` (ignoring ASCII case), a rate in Hz, or any other three-byte word as a MOD note
/// name, uppercased.
pub open spec fn sample_freq_mode_spec(s: Seq<char>) -> Option<SampleFreqMode> {
    if is_word(s, "low"@) {
        Some(SampleFreqMode::Low)
    } else if is_word(s, "high"@) {
        Some(SampleFreqMode::High)
    } else if is_word(s, "maximum"@) || is_word(s, "max"@) {
        Some(SampleFreqMode::Maximum)
    } else if is_word(s, "original"@) {
        Some(SampleFreqMode::Original)
    } else {
        match parse_u32_spec(s) {
            Some(hz) => Some(SampleFreqMode::Hz(hz)),
            None => None,
        }
    }
}

fn word_matches(s: &str, word: &str) -> (r: bool)
    ensures
        r == is_word(s@, word@),
{
    let n = s.unicode_len();
    if n != word.unicode_len() {
        return false;
    }
    let mut i: usize = 0;
    while i < n
        invariant
            i <= n,
            n == s@.len(),
            n == word@.len(),
            forall|k: int| 0 <= k < i ==> #[trigger] ascii_lower_char(s@[k]) == word@[k],
        decreases n - i,
    {
        let c = s.get_char(i);
        let lower = if 'A' <= c && c <= 'Z' { ((c as u32) + 32) as u8 as char } else { c };
        assert(lower == ascii_lower_char(c)) by {
            if 'A' <= c && c <= 'Z' {
                assert(((c as u32) + 32) as u8 as char == ((c as u32) + 32) as char);
            }
        }
        if lower != word.get_char(i) {
            return false;
        }
        i += 1;
    }
    true
}

/// Reads a `u32` the way `u32::from_str` does.
pub fn parse_u32(s: &str) -> (r: Option<u32>)
    ensures
        r == parse_u32_spec(s@),
{
    let n = s.unicode_len();
    let start: usize = if n > 0 && s.get_char(0) == '+' { 1 } else { 0 };
    let ghost digits = unsigned_digits(s@);
    assert(digits =~= s@.subrange(start as int, n as int));
    if start >= n {
        return None;
    }
    let mut value: u64 = 0;
    let mut i: usize = start;
    while i < n
        invariant
            start <= i <= n,
            n == s@.len(),
            digits == s@.subrange(start as int, n as int),
            digits == unsigned_digits(s@),
            forall|k: int| start <= k < i ==> '0' <= #[trigger] s@[k] && s@[k] <= '9',
            value == digits_value(s@.subrange(start as int, i as int)),
            value <= u32::MAX,
        decreases n - i,
    {
        let c = s.get_char(i);
        proof {
            assert(s@.subrange(start as int, i + 1).drop_last() =~= s@.subrange(start as int, i as int));
        }
        if !('0' <= c && c <= '9') {
            proof {
                assert(digits[i - start] == c);
                assert(!('0' <= digits[i - start] && digits[i - start] <= '9'));
                assert(!all_decimal(digits));
                assert(parse_u32_spec(s@) is None);
            }
            return None;
        }
        value = 10 * value + (c as u32 - '0' as u32) as u64;
        if value > 0xFFFF_FFFF {
            proof {
                let sub = s@.subrange(start as int, i + 1);
                assert(sub.last() == c);
                assert(digits_value(sub) == 10 * digits_value(sub.drop_last()) + (c as int - '0' as int));
                assert(digits_value(sub) == value);
                if all_decimal(digits) {
                    lemma_digits_value_prefix_bound(digits, i + 1 - start);
                    assert(digits.take(i + 1 - start) =~= sub);
                }
                assert(parse_u32_spec(s@) is None);
            }
            return None;
        }
        i += 1;
    }
    proof {
        assert(s@.subrange(start as int, i as int) =~= digits);
    }
    Some(value as u32)
}

pub proof fn lemma_digits_value_prefix_bound(s: Seq<char>, k: int)
    requires
        0 <= k <= s.len(),
        forall|i: int| 0 <= i < s.len() ==> '0' <= #[trigger] s[i] && s[i] <= '9',
    ensures
        digits_value(s) >= digits_value(s.take(k)),
    decreases s.len() - k,
{
    if k < s.len() {
        lemma_digits_value_prefix_bound(s, k + 1);
        assert(s.take(k + 1).drop_last() =~= s.take(k));
        lemma_digits_value_nonneg(s.take(k));
    } else {
        assert(s.take(k) =~= s);
    }
}

proof fn lemma_digits_value_nonneg(s: Seq<char>)
    requires
        forall|i: int| 0 <= i < s.len() ==> '0' <= #[trigger] s[i] && s[i] <= '9',
    ensures
        digits_value(s) >= 0,
    decreases s.len(),
{
    if s.len() > 0 {
        lemma_digits_value_nonneg(s.drop_last());
    }
}

/// `str::to_ascii_uppercase`: a copy of `s` with ASCII letters `a`-`z` mapped to `A`-`Z` and
/// every other character unchanged.
#[verifier::external_body]
fn to_ascii_uppercase(s: &str) -> (r: String)
    ensures
        r@ == s@.map_values(|c: char| ascii_upper_char(c)),
{
    s.to_ascii_uppercase()
}

/// Reads the sample rate choice of the command line; a word that is none of the choices, not a
/// rate, and not three bytes long is refused.
pub fn parse_sample_freq_mode(s: &str) -> (r: Result<SampleFreqMode, Error>)
    ensures
        sample_freq_mode_spec(s@) matches Some(m) ==> r == Ok::<SampleFreqMode, Error>(m),
        sample_freq_mode_spec(s@) is None && encode_utf8(s@).len() == 3
            ==> (r matches Ok(SampleFreqMode::NoteName(name)) && name@ == s@.map_values(|c: char| ascii_upper_char(c))),
        sample_freq_mode_spec(s@) is None && encode_utf8(s@).len() != 3
            ==> (r matches Err(Error::Conversion(ConversionError::InvalidSampleRate(t))) && t@ == s@),
{
    if word_matches(s, "low") {
        return Ok(SampleFreqMode::Low);
    }
    if word_matches(s, "high") {
        return Ok(SampleFreqMode::High);
    }
    if word_matches(s, "maximum") || word_matches(s, "max") {
        return Ok(SampleFreqMode::Maximum);
    }
    if word_matches(s, "original") {
        return Ok(SampleFreqMode::Original);
    }
    if let Some(hz) = parse_u32(s) {
        return Ok(SampleFreqMode::Hz(hz));
    }
    if s.as_bytes().len() == 3 {
        return Ok(SampleFreqMode::NoteName(to_ascii_uppercase(s)));
    }
    Err(Error::Conversion(ConversionError::InvalidSampleRate(s.to_owned())))
}

} // verus!
