//! The Amiga period table and note-range checks. The values are historical ProTracker tuning constants,
//! not an idealized `1712 / 2^(n/12)` curve.
use vstd::prelude::*;
use vstd::string::*;

use crate::text::{decimal_digit_value, note_letter, note_letter_index, note_name_parts, note_slice_splits_char};

verus! {

/// 72 periods (6 octaves). Index 0 is Renoise note 24 (C-2).
pub const PERIODS_RANGE: [i32; 72] = [
    1712, 1616, 1524, 1440, 1356, 1280, 1208, 1140, 1076, 1016, 960, 907,
    856, 808, 762, 720, 678, 640, 604, 570, 538, 508, 480, 453,
    428, 404, 381, 360, 339, 320, 302, 285, 269, 254, 240, 226,
    214, 202, 190, 180, 170, 160, 151, 143, 135, 127, 120, 113,
    107, 101, 95, 90, 85, 80, 75, 71, 67, 63, 60, 56,
    53, 50, 47, 45, 42, 40, 37, 35, 33, 31, 30, 28,
];


/// Entries `k..72` of `s` lie in `28..=1712`, each below the one before it.
spec fn periods_ordered_from(s: Seq<i32>, k: int) -> bool
    decreases 72 - k,
{
    if k >= 72 || k < 0 {
        true
    } else {
        &&& 28 <= s[k] <= 1712
        &&& (k < 71 ==> s[k + 1] < s[k])
        &&& periods_ordered_from(s, k + 1)
    }
}

proof fn lemma_periods_ordered_at(s: Seq<i32>, k: int, i: int)
    requires
        0 <= k <= i < 72,
        periods_ordered_from(s, k),
    ensures
        28 <= s[i] <= 1712,
        i < 71 ==> s[i + 1] < s[i],
    decreases i - k,
{
    if k < i {
        lemma_periods_ordered_at(s, k + 1, i);
    }
}

/// Every period lies in `28..=1712` and the table strictly decreases.
pub proof fn lemma_period_bounds(i: int)
    requires
        0 <= i < 72,
    ensures
        28 <= PERIODS_RANGE@[i] <= 1712,
        i < 71 ==> PERIODS_RANGE@[i + 1] < PERIODS_RANGE@[i],
{
    assert(periods_ordered_from(PERIODS_RANGE@, 0)) by {
        reveal_with_fuel(periods_ordered_from, 73);
    }
    lemma_periods_ordered_at(PERIODS_RANGE@, 0, i);
}

pub const NOTE_VALUE_C1: i32 = 12;
pub const NOTE_VALUE_C2: i32 = 24;
pub const NOTE_VALUE_C3: i32 = 36;
pub const NOTE_VALUE_A3: i32 = 45;
pub const NOTE_VALUE_B3: i32 = 47;
pub const NOTE_VALUE_C4: i32 = 48;

/// How far a MOD must stay within what real ProTracker plays.
#[derive(Debug, Clone, Copy, PartialEq, Eq, Structural)]
pub enum ProTrackerCompatibility {
    /// No restriction beyond the period table (called `None` in the command-line vocabulary).
    Disabled,
    /// ProTracker's own playable range, up to B-3.
    B3Max,
    /// Stricter: real Amiga hardware DMA limits, up to A-3.
    A3Max,
}

pub open spec fn note_in_period_range(note_index: int) -> bool {
    0 <= note_index < 72
}

pub open spec fn note_in_range(note_index: int, compat: ProTrackerCompatibility) -> bool {
    &&& note_in_period_range(note_index)
    &&& compat != ProTrackerCompatibility::Disabled ==> note_index >= NOTE_VALUE_C1
    &&& compat == ProTrackerCompatibility::A3Max ==> note_index <= NOTE_VALUE_A3
    &&& compat == ProTrackerCompatibility::B3Max ==> note_index <= NOTE_VALUE_B3
}

/// Bounds check against the table alone.
pub fn is_note_in_period_range(note_index: i32) -> (r: bool)
    ensures
        r == note_in_period_range(note_index as int),
{
    0 <= note_index && note_index < 72
}

/// Bounds check restricted further by the ProTracker compatibility mode.
pub fn is_note_in_range(note_index: i32, compat: ProTrackerCompatibility) -> (r: bool)
    ensures
        r == note_in_range(note_index as int, compat),
{
    let mut in_range = is_note_in_period_range(note_index);
    if compat != ProTrackerCompatibility::Disabled && note_index < NOTE_VALUE_C1 {
        in_range = false;
    }
    if compat == ProTrackerCompatibility::A3Max && note_index > NOTE_VALUE_A3 {
        in_range = false;
    }
    if compat == ProTrackerCompatibility::B3Max && note_index > NOTE_VALUE_B3 {
        in_range = false;
    }
    in_range
}

/// Parses a three-character note name (e.g. `"C-4"`) into `(octave, note_offset)`.
pub fn parse_note_name_parts(note: &str) -> (r: Option<(i32, i32)>)
    requires
        !note_slice_splits_char(note@),
    ensures
        r == note_name_parts(note@),
{
    if note.unicode_len() != 3 {
        return None;
    }
    let c0 = note.get_char(0);
    let c1 = note.get_char(1);
    let c2 = note.get_char(2);
    if !('0' <= c2 && c2 <= '9') {
        return None;
    }
    let octave = (c2 as u32 - '0' as u32) as i32;
    match note_letter(c0, c1) {
        Some(offset) => Some((octave, offset)),
        None => None,
    }
}

pub open spec fn note_name_period_index(s: Seq<char>) -> Option<i32> {
    match note_name_parts(s) {
        Some((octave, offset)) => if note_in_period_range(octave * 12 + offset) {
            Some((octave * 12 + offset) as i32)
        } else {
            None
        },
        None => None,
    }
}

/// Period-table index of a MOD note name such as `"C-2"`, with no compatibility clamping.
pub fn parse_note_name_to_period_index(note: &str) -> (r: Option<i32>)
    requires
        !note_slice_splits_char(note@),
    ensures
        r == note_name_period_index(note@),
{
    match parse_note_name_parts(note) {
        Some((octave, offset)) => {
            let note_index = octave * 12 + offset;
            if is_note_in_period_range(note_index) { Some(note_index) } else { None }
        },
        None => None,
    }
}

} // verus!
