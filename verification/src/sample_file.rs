//! Finding an instrument's sample file among the entries of an `.xrns` archive.
use vstd::prelude::*;
use vstd::string::*;
use vstd::utf8::{decode_utf8, encode_utf8, encode_utf8_valid_utf8, is_leading_byte_width_1, partial_valid_utf8,
    partial_valid_utf8_extend_ascii_block, valid_utf8, valid_utf8_concat};

use crate::error::{ConversionError, Error};
use crate::mod_format::{append_bytes, decimal_bytes, decimal_bytes_exec};

verus! {

/// `n` in decimal with at least two digits, zero-padded as `{:02}` writes it.
pub open spec fn two_digit_bytes(n: nat) -> Seq<u8> {
    if n < 10 { seq![48u8, (48 + n) as u8] } else { decimal_bytes(n) }
}

/// The UTF-8 bytes of the case-insensitive pattern naming sample `sample_index` of instrument
/// `instrument_index`: `SampleData/InstrumentNN.*/SampleNN.*\.(wav|aiff?|ogg|flac|mp3|aac)$`.
pub open spec fn sample_file_pattern_bytes(instrument_index: nat, sample_index: nat) -> Seq<u8> {
    encode_utf8("SampleData/Instrument"@) + two_digit_bytes(instrument_index) + encode_utf8(".*/Sample"@)
        + two_digit_bytes(sample_index) + encode_utf8(".*\\.(wav|aiff?|ogg|flac|mp3|aac)$"@)
}

/// The lookup pattern as text.
pub open spec fn sample_file_pattern(instrument_index: nat, sample_index: nat) -> Seq<char> {
    decode_utf8(sample_file_pattern_bytes(instrument_index, sample_index))
}

proof fn lemma_decimal_bytes_ascii(n: nat)
    ensures
        forall|i: int| 0 <= i < decimal_bytes(n).len() ==> 48 <= #[trigger] decimal_bytes(n)[i] <= 57,
    decreases n,
{
    if n >= 10 {
        lemma_decimal_bytes_ascii(n / 10);
        let d = decimal_bytes(n / 10);
        assert(decimal_bytes(n) == d.push((48 + n % 10) as u8));
        assert(48 <= (48 + n % 10) as u8 <= 57);
    } else {
        assert(decimal_bytes(n) == seq![(48 + n) as u8]);
    }
}

proof fn lemma_ascii_valid_utf8(b: Seq<u8>)
    requires
        forall|i: int| 0 <= i < b.len() ==> #[trigger] b[i] < 128,
    ensures
        valid_utf8(b),
{
    assert(b.subrange(0, 0) =~= Seq::<u8>::empty());
    assert(partial_valid_utf8(b, 0));
    assert forall|i: int| 0 <= 0 <= i < b.len() <= b.len() implies #[trigger] is_leading_byte_width_1(b[i]) by {
        assert(b[i] < 128);
    }
    partial_valid_utf8_extend_ascii_block(b, 0, b.len() as int);
    assert(b.subrange(0, b.len() as int) =~= b);
}

proof fn lemma_pattern_valid_utf8(instrument_index: nat, sample_index: nat)
    ensures
        valid_utf8(sample_file_pattern_bytes(instrument_index, sample_index)),
{
    lemma_decimal_bytes_ascii(instrument_index);
    lemma_decimal_bytes_ascii(sample_index);
    let a = two_digit_bytes(instrument_index);
    let b = two_digit_bytes(sample_index);
    lemma_ascii_valid_utf8(a);
    lemma_ascii_valid_utf8(b);
    let l1 = encode_utf8("SampleData/Instrument"@);
    let l2 = encode_utf8(".*/Sample"@);
    let l3 = encode_utf8(".*\\.(wav|aiff?|ogg|flac|mp3|aac)$"@);
    encode_utf8_valid_utf8("SampleData/Instrument"@);
    encode_utf8_valid_utf8(".*/Sample"@);
    encode_utf8_valid_utf8(".*\\.(wav|aiff?|ogg|flac|mp3|aac)$"@);
    valid_utf8_concat(l1, a);
    valid_utf8_concat(l1 + a, l2);
    valid_utf8_concat(l1 + a + l2, b);
    valid_utf8_concat(l1 + a + l2 + b, l3);
}

fn two_digit_bytes_exec(n: usize) -> (r: Vec<u8>)
    ensures
        r@ == two_digit_bytes(n as nat),
{
    if n < 10 {
        let mut v: Vec<u8> = Vec::new();
        v.push(48);
        v.push((48 + n) as u8);
        assert(v@ =~= two_digit_bytes(n as nat));
        v
    } else {
        decimal_bytes_exec(n)
    }
}

/// `String::from_utf8`: the string whose UTF-8 encoding is `bytes`, when the bytes are valid
/// UTF-8 (`None` otherwise).
#[verifier::external_body]
fn string_from_utf8(bytes: Vec<u8>) -> (r: Option<String>)
    ensures
        r is Some <==> valid_utf8(bytes@),
        r matches Some(s) ==> s@ == decode_utf8(bytes@),
{
    String::from_utf8(bytes).ok()
}

/// The lookup pattern for sample `sample_index` of instrument `instrument_index`.
pub fn sample_file_pattern_string(instrument_index: usize, sample_index: usize) -> (r: String)
    ensures
        r@ == sample_file_pattern(instrument_index as nat, sample_index as nat),
{
    let mut bytes: Vec<u8> = Vec::new();
    append_bytes(&mut bytes, "SampleData/Instrument".as_bytes());
    let a = two_digit_bytes_exec(instrument_index);
    append_bytes(&mut bytes, a.as_slice());
    append_bytes(&mut bytes, ".*/Sample".as_bytes());
    let b = two_digit_bytes_exec(sample_index);
    append_bytes(&mut bytes, b.as_slice());
    append_bytes(&mut bytes, ".*\\.(wav|aiff?|ogg|flac|mp3|aac)$".as_bytes());
    proof {
        assert(bytes@ =~= sample_file_pattern_bytes(instrument_index as nat, sample_index as nat));
        lemma_pattern_valid_utf8(instrument_index as nat, sample_index as nat);
    }
    match string_from_utf8(bytes) {
        Some(s) => s,
        None => String::new(),
    }
}

/// Whether `haystack` matches `pattern` compiled as a case-insensitive regular expression;
/// `None` when the pattern does not compile.
pub uninterp spec fn case_insensitive_match(pattern: Seq<char>, haystack: Seq<char>) -> Option<bool>;

/// `regex::RegexBuilder::new(pattern).case_insensitive(true).build()` followed by
/// `Regex::is_match(haystack)`. The result is named: it depends on the pattern and the text
/// alone, and what a regular expression matches is not restated here.
#[verifier::external_body]
fn match_case_insensitive(pattern: &str, haystack: &str) -> (r: Option<bool>)
    ensures
        r == case_insensitive_match(pattern@, haystack@),
{
    match regex::RegexBuilder::new(pattern).case_insensitive(true).build() {
        Ok(re) => Some(re.is_match(haystack)),
        Err(_) => None,
    }
}

/// Whether entry `name` is a sample file of the lookup pattern `pattern`.
pub open spec fn is_sample_file(pattern: Seq<char>, name: Seq<char>) -> bool {
    case_insensitive_match(pattern, name) == Some(true)
}

/// Finds the first archive entry that is sample `sample_index` of instrument
/// `instrument_index` (`None` when there is none). Fails when the lookup pattern does not
/// compile.
pub fn find_sample_file(names: &[String], instrument_index: usize, sample_index: usize) -> (r: Result<Option<usize>, Error>)
    ensures
        ({
            let p = sample_file_pattern(instrument_index as nat, sample_index as nat);
            &&& r is Err <==> case_insensitive_match(p, Seq::empty()) is None
            &&& r is Err ==> r == Err::<Option<usize>, Error>(Error::Conversion(ConversionError::InvalidSampleLookupPattern))
            &&& r matches Ok(Some(k)) ==> k < names@.len() && is_sample_file(p, names@[k as int]@)
                && forall|j: int| 0 <= j < k ==> !is_sample_file(p, #[trigger] names@[j]@)
            &&& r matches Ok(None) ==> forall|j: int| 0 <= j < names@.len() ==> !is_sample_file(p, #[trigger] names@[j]@)
        }),
{
    let pattern = sample_file_pattern_string(instrument_index, sample_index);
    let empty = String::new();
    if match_case_insensitive(pattern.as_str(), empty.as_str()).is_none() {
        return Err(Error::Conversion(ConversionError::InvalidSampleLookupPattern));
    }
    let mut i: usize = 0;
    while i < names.len()
        invariant
            i <= names@.len(),
            pattern@ == sample_file_pattern(instrument_index as nat, sample_index as nat),
            case_insensitive_match(pattern@, Seq::empty()) is Some,
            forall|j: int| 0 <= j < i ==> !is_sample_file(pattern@, #[trigger] names@[j]@),
        decreases names@.len() - i,
    {
        if match_case_insensitive(pattern.as_str(), names[i].as_str()) == Some(true) {
            return Ok(Some(i));
        }
        i += 1;
    }
    Ok(None)
}

/// The bytes after the last `.` of `b` (all of `b` when it has none).
pub open spec fn after_last_dot(b: Seq<u8>) -> Seq<u8>
    decreases b.len(),
{
    if b.len() == 0 {
        b
    } else if b.last() == 46 {
        Seq::empty()
    } else {
        after_last_dot(b.drop_last()).push(b.last())
    }
}

/// ASCII lowercase of a byte.
pub open spec fn ascii_lower(b: u8) -> u8 {
    if 65 <= b <= 90 { (b + 32) as u8 } else { b }
}

/// The ASCII-lowercased extension of an archive entry name, as UTF-8 bytes.
pub fn sample_extension(name: &str) -> (r: Vec<u8>)
    ensures
        r@ == after_last_dot(name.spec_bytes()).map_values(|b: u8| ascii_lower(b)),
{
    let bytes = name.as_bytes();
    let mut start: usize = 0;
    let mut i: usize = 0;
    while i < bytes.len()
        invariant
            i <= bytes@.len(),
            start <= i,
            after_last_dot(bytes@.take(i as int)) == bytes@.subrange(start as int, i as int),
        decreases bytes@.len() - i,
    {
        proof {
            assert(bytes@.take(i + 1).drop_last() =~= bytes@.take(i as int));
        }
        if bytes[i] == 46 {
            start = i + 1;
            proof {
                assert(bytes@.subrange(start as int, i + 1) =~= Seq::<u8>::empty());
            }
        } else {
            proof {
                assert(bytes@.subrange(start as int, i + 1) =~= bytes@.subrange(start as int, i as int).push(bytes@[i as int]));
            }
        }
        i += 1;
    }
    proof {
        assert(bytes@.take(i as int) =~= bytes@);
    }
    let mut out: Vec<u8> = Vec::new();
    let mut k: usize = start;
    while k < bytes.len()
        invariant
            start <= k <= bytes@.len(),
            out@ =~= bytes@.subrange(start as int, k as int).map_values(|b: u8| ascii_lower(b)),
        decreases bytes@.len() - k,
    {
        let b = bytes[k];
        out.push(if 65 <= b && b <= 90 { b + 32 } else { b });
        k += 1;
    }
    out
}

/// The extension of a sample file, refusing AAC, which cannot be decoded.
pub fn check_sample_extension(name: &str) -> (r: Result<Vec<u8>, Error>)
    ensures
        ({
            let ext = after_last_dot(name.spec_bytes()).map_values(|b: u8| ascii_lower(b));
            &&& ext == seq![97u8, 97u8, 99u8] ==> (r matches Err(Error::Conversion(ConversionError::UnsupportedAac(n))) && n@ == name@)
            &&& ext != seq![97u8, 97u8, 99u8] ==> (r matches Ok(e) && e@ == ext)
        }),
{
    let ext = sample_extension(name);
    if ext.len() == 3 && ext[0] == 97 && ext[1] == 97 && ext[2] == 99 {
        assert(ext@ =~= seq![97u8, 97u8, 99u8]);
        return Err(Error::Conversion(ConversionError::UnsupportedAac(name.to_owned())));
    }
    assert(ext@ != seq![97u8, 97u8, 99u8]) by {
        if ext@ == seq![97u8, 97u8, 99u8] {
            assert(ext@[0] == 97u8 && ext@[1] == 97u8 && ext@[2] == 99u8);
        }
    }
    Ok(ext)
}

} // verus!
