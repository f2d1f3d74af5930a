//! Character-level helpers shared by the effect/note parsers: hexadecimal digit values and
//! `i32` parsing in base 16 with the same acceptance rules as the standard library's
//! `i32::from_str_radix(s, 16)`.
use vstd::prelude::*;
use vstd::string::*;

verus! {

/// Value of `c` as a base-16 digit (`0-9`, `a-f`, `A-F`).
pub open spec fn hex_digit_value(c: char) -> Option<int> {
    if '0' <= c && c <= '9' {
        Some(c as int - '0' as int)
    } else if 'a' <= c && c <= 'f' {
        Some(c as int - 'a' as int + 10)
    } else if 'A' <= c && c <= 'F' {
        Some(c as int - 'A' as int + 10)
    } else {
        None
    }
}

pub open spec fn all_hex_digits(s: Seq<char>) -> bool {
    forall|i: int| 0 <= i < s.len() ==> (#[trigger] hex_digit_value(s[i])) is Some
}

/// Natural-number value of a string made only of hex digits, most significant first.
pub open spec fn hex_magnitude(s: Seq<char>) -> int
    decreases s.len(),
{
    if s.len() == 0 {
        0
    } else {
        16 * hex_magnitude(s.drop_last()) + hex_digit_value(s.last()).unwrap()
    }
}

/// The result of `i32::from_str_radix(s, 16)`: an optional leading `+` or `-`, then at least one
/// hex digit, and a value that fits an `i32`.
pub open spec fn parse_hex_i32_spec(s: Seq<char>) -> Option<i32> {
    let negative = s.len() > 0 && s[0] == '-';
    let digits = if s.len() > 0 && (s[0] == '-' || s[0] == '+') { s.drop_first() } else { s };
    if digits.len() == 0 || !all_hex_digits(digits) {
        None
    } else {
        let v = if negative { -hex_magnitude(digits) } else { hex_magnitude(digits) };
        if i32::MIN <= v <= i32::MAX { Some(v as i32) } else { None }
    }
}

pub fn hex_digit(c: char) -> (r: Option<u32>)
    ensures
        r matches Some(v) ==> hex_digit_value(c) == Some(v as int),
        r is None ==> hex_digit_value(c) is None,
{
    if '0' <= c && c <= '9' {
        Some((c as u32) - ('0' as u32))
    } else if 'a' <= c && c <= 'f' {
        Some((c as u32) - ('a' as u32) + 10)
    } else if 'A' <= c && c <= 'F' {
        Some((c as u32) - ('A' as u32) + 10)
    } else {
        None
    }
}


proof fn lemma_hex_magnitude_nonneg(s: Seq<char>)
    requires
        all_hex_digits(s),
    ensures
        hex_magnitude(s) >= 0,
    decreases s.len(),
{
    if s.len() > 0 {
        assert(all_hex_digits(s.drop_last())) by {
            assert forall|i: int| 0 <= i < s.drop_last().len() implies
                (#[trigger] hex_digit_value(s.drop_last()[i])) is Some by {
                assert(s.drop_last()[i] == s[i]);
            }
        }
        lemma_hex_magnitude_nonneg(s.drop_last());
        assert(hex_digit_value(s[s.len() - 1]) is Some);
    }
}

/// Appending hex digits never decreases the magnitude.
proof fn lemma_hex_magnitude_prefix(s: Seq<char>, k: int)
    requires
        all_hex_digits(s),
        0 <= k <= s.len(),
    ensures
        hex_magnitude(s.take(k)) <= hex_magnitude(s),
    decreases s.len(),
{
    if k < s.len() {
        assert(all_hex_digits(s.drop_last())) by {
            assert forall|i: int| 0 <= i < s.drop_last().len() implies
                (#[trigger] hex_digit_value(s.drop_last()[i])) is Some by {
                assert(s.drop_last()[i] == s[i]);
            }
        }
        lemma_hex_magnitude_prefix(s.drop_last(), k);
        assert(s.drop_last().take(k) =~= s.take(k));
        lemma_hex_magnitude_nonneg(s.drop_last());
        assert(hex_digit_value(s[s.len() - 1]) is Some);
    } else {
        assert(s.take(k) =~= s);
    }
}

/// `i32::from_str_radix(s, 16)`, as a total function returning `None` on every input the
/// standard library rejects.
pub fn parse_hex_i32(s: &str) -> (r: Option<i32>)
    ensures
        r == parse_hex_i32_spec(s@),
{
    let n = s.unicode_len();
    if n == 0 {
        return None;
    }
    let first = s.get_char(0);
    let negative = first == '-';
    let start: usize = if first == '-' || first == '+' { 1 } else { 0 };
    let ghost digits = if s@.len() > 0 && (s@[0] == '-' || s@[0] == '+') {
        s@.drop_first()
    } else {
        s@
    };
    assert(digits =~= s@.subrange(start as int, n as int));
    if start == n {
        return None;
    }
    let mut acc: i64 = 0;
    let mut i: usize = start;
    while i < n
        invariant
            start <= i <= n,
            n == s@.len(),
            digits =~= s@.subrange(start as int, n as int),
            digits == (if s@.len() > 0 && (s@[0] == '-' || s@[0] == '+') {
                s@.drop_first()
            } else {
                s@
            }),
            all_hex_digits(digits.take(i - start)),
            acc == hex_magnitude(digits.take(i - start)),
            0 <= acc <= 0x8000_0000,
        decreases n - i,
    {
        let c = s.get_char(i);
        let ghost pre = digits.take(i - start);
        let ghost post = digits.take(i + 1 - start);
        assert(post.drop_last() =~= pre);
        assert(post.last() == c);
        match hex_digit(c) {
            None => {
                assert(!all_hex_digits(digits)) by {
                    assert(digits[i - start] == c);
                }
                return None;
            },
            Some(d) => {
                acc = acc * 16 + d as i64;
                assert(all_hex_digits(post)) by {
                    assert forall|j: int| 0 <= j < post.len() implies
                        (#[trigger] hex_digit_value(post[j])) is Some by {
                        if j < pre.len() {
                            assert(post[j] == pre[j]);
                        }
                    }
                }
                i = i + 1;
                if acc > 0x8000_0000 {
                    proof {
                        if all_hex_digits(digits) {
                            lemma_hex_magnitude_prefix(digits, i - start);
                        }
                    }
                    return None;
                }
            },
        }
    }
    assert(digits.take(n - start) =~= digits);
    if negative {
        Some((-acc) as i32)
    } else if acc <= 0x7FFF_FFFF {
        Some(acc as i32)
    } else {
        None
    }
}


/// Bytes taken by `c` in UTF-8.
pub open spec fn utf8_width(c: char) -> int {
    if (c as u32) < 0x80 { 1 } else if (c as u32) < 0x800 { 2 } else if (c as u32) < 0x10000 { 3 } else { 4 }
}

/// Whether taking the byte range `0..2` of a 3-byte string `s` splits a character: the
/// note parsers slice note names this way, which panics on such strings.
pub open spec fn note_slice_splits_char(s: Seq<char>) -> bool {
    ||| s.len() == 2 && utf8_width(s[0]) == 1 && utf8_width(s[1]) == 2
    ||| s.len() == 1 && utf8_width(s[0]) == 3
}

/// Index of a two-character note name (`"C-"`, `"C#"`, ..., `"B-"`) in the octave.
pub open spec fn note_letter_index(c0: char, c1: char) -> Option<int> {
    if c1 == '-' {
        if c0 == 'C' { Some(0) }
        else if c0 == 'D' { Some(2) }
        else if c0 == 'E' { Some(4) }
        else if c0 == 'F' { Some(5) }
        else if c0 == 'G' { Some(7) }
        else if c0 == 'A' { Some(9) }
        else if c0 == 'B' { Some(11) }
        else { None }
    } else if c1 == '#' {
        if c0 == 'C' { Some(1) }
        else if c0 == 'D' { Some(3) }
        else if c0 == 'F' { Some(6) }
        else if c0 == 'G' { Some(8) }
        else if c0 == 'A' { Some(10) }
        else { None }
    } else {
        None
    }
}

/// The note names count the twelve semitones of an octave in order from C (at 0): each natural
/// lies a whole tone above the one before it, except F, a semitone above E; each sharp lies a
/// semitone above its natural; E and B have no sharp; and no two names share a semitone.
pub proof fn law_note_letters_are_chromatic()
    ensures
        note_letter_index('C', '-') == Some(0int),
        note_letter_index('D', '-') == Some(note_letter_index('C', '-').unwrap() + 2),
        note_letter_index('E', '-') == Some(note_letter_index('D', '-').unwrap() + 2),
        note_letter_index('F', '-') == Some(note_letter_index('E', '-').unwrap() + 1),
        note_letter_index('G', '-') == Some(note_letter_index('F', '-').unwrap() + 2),
        note_letter_index('A', '-') == Some(note_letter_index('G', '-').unwrap() + 2),
        note_letter_index('B', '-') == Some(note_letter_index('A', '-').unwrap() + 2),
        note_letter_index('C', '#') == Some(note_letter_index('C', '-').unwrap() + 1),
        note_letter_index('D', '#') == Some(note_letter_index('D', '-').unwrap() + 1),
        note_letter_index('F', '#') == Some(note_letter_index('F', '-').unwrap() + 1),
        note_letter_index('G', '#') == Some(note_letter_index('G', '-').unwrap() + 1),
        note_letter_index('A', '#') == Some(note_letter_index('A', '-').unwrap() + 1),
        note_letter_index('E', '#') is None && note_letter_index('B', '#') is None,
        forall|c0: char, c1: char| #[trigger] note_letter_index(c0, c1) matches Some(i) ==> 0 <= i < 12,
        forall|a0: char, a1: char, b0: char, b1: char|
            #[trigger] note_letter_index(a0, a1) is Some && note_letter_index(a0, a1) == #[trigger] note_letter_index(b0, b1)
            ==> a0 == b0 && a1 == b1,
{
}

pub fn note_letter(c0: char, c1: char) -> (r: Option<i32>)
    ensures
        r matches Some(v) ==> note_letter_index(c0, c1) == Some(v as int),
        r is None ==> note_letter_index(c0, c1) is None,
{
    if c1 == '-' {
        if c0 == 'C' { Some(0) }
        else if c0 == 'D' { Some(2) }
        else if c0 == 'E' { Some(4) }
        else if c0 == 'F' { Some(5) }
        else if c0 == 'G' { Some(7) }
        else if c0 == 'A' { Some(9) }
        else if c0 == 'B' { Some(11) }
        else { None }
    } else if c1 == '#' {
        if c0 == 'C' { Some(1) }
        else if c0 == 'D' { Some(3) }
        else if c0 == 'F' { Some(6) }
        else if c0 == 'G' { Some(8) }
        else if c0 == 'A' { Some(10) }
        else { None }
    } else {
        None
    }
}

pub open spec fn decimal_digit_value(c: char) -> Option<int> {
    if '0' <= c && c <= '9' { Some(c as int - '0' as int) } else { None }
}

/// `(octave, note_offset)` of a three-character note name such as `"C-4"` or `"F#2"`.
pub open spec fn note_name_parts(s: Seq<char>) -> Option<(i32, i32)> {
    if s.len() == 3 && note_letter_index(s[0], s[1]) is Some && decimal_digit_value(s[2]) is Some {
        Some((decimal_digit_value(s[2]).unwrap() as i32, note_letter_index(s[0], s[1]).unwrap() as i32))
    } else {
        None
    }
}

} // verus!
