//! MOD effect-command encoders. Each returns the `(effect_number, effect_value)`
//! pair written into the last two bytes of a pattern cell.
use vstd::prelude::*;

use crate::common::{
    fine_portamento_closer, fine_volume_closer, fine_volume_closer_defined, get_portamento_value,
    get_volume_slide_value, is_fine_portamento_closer_to_value, is_fine_volume_closer_to_value,
    pitch_slide_loss_defined, portamento_value, tick_divider_spec, volume_slide_value,
};
use crate::error::{ConversionError, Error};
use crate::numeric::min;

verus! {

pub open spec fn arpeggio_cmd(v: int) -> (u8, u8) {
    (0x0, v as u8)
}

/// `0xy` - arpeggio.
pub fn arpeggio(eff_val: i32) -> (r: (u8, u8))
    ensures
        r == arpeggio_cmd(eff_val as int),
{
    (0x0, eff_val as u8)
}

pub open spec fn portamento_up_down_cmd(num: int, v: int, ticks: int) -> (u8, u8) {
    (num as u8, portamento_value(v, ticks) as u8)
}

pub open spec fn fine_portamento_up_down_cmd(num: int, v: int) -> (u8, u8) {
    (0x0E, (0x10 * num + min(v, 0xF)) as u8)
}

/// Coarse (`1xx`/`2xx`) or fine (`E1x`/`E2x`) pitch slide, fine only outside pitch
/// compatibility mode and when it loses less precision.
pub open spec fn portamento_cmd(num: int, v: int, ticks: int, threshold: int, pitch_compat: bool) -> (u8, u8) {
    if !pitch_compat && fine_portamento_closer(v, ticks, threshold) {
        fine_portamento_up_down_cmd(num, v)
    } else {
        portamento_up_down_cmd(num, v, ticks)
    }
}

pub open spec fn portamento_defined(num: int, v: int, ticks: int, threshold: int, pitch_compat: bool) -> bool {
    &&& (!pitch_compat && v > 0) ==> pitch_slide_loss_defined(v, ticks)
    &&& (!pitch_compat && fine_portamento_closer(v, ticks, threshold))
        ==> (i32::MIN <= 0x10 * num <= i32::MAX && i32::MIN <= 0x10 * num + min(v, 0xF) <= i32::MAX)
}

pub fn portamento(
    eff_num: i32,
    eff_val: i32,
    ticks_per_row: i32,
    accuracy_loss_threshold: i32,
    pitch_compatibility_mode: bool,
) -> (r: (u8, u8))
    requires
        portamento_defined(eff_num as int, eff_val as int, ticks_per_row as int, accuracy_loss_threshold as int, pitch_compatibility_mode),
    ensures
        r == portamento_cmd(eff_num as int, eff_val as int, ticks_per_row as int, accuracy_loss_threshold as int, pitch_compatibility_mode),
{
    let use_fine = !pitch_compatibility_mode
        && is_fine_portamento_closer_to_value(eff_val, ticks_per_row, accuracy_loss_threshold);
    if use_fine {
        fine_portamento_up_down(eff_num, eff_val)
    } else {
        portamento_up_down(eff_num, eff_val, ticks_per_row)
    }
}

pub fn portamento_up_down(eff_num: i32, eff_val: i32, ticks_per_row: i32) -> (r: (u8, u8))
    ensures
        r == portamento_up_down_cmd(eff_num as int, eff_val as int, ticks_per_row as int),
{
    (eff_num as u8, get_portamento_value(eff_val, ticks_per_row) as u8)
}

pub fn fine_portamento_up_down(eff_num: i32, eff_val: i32) -> (r: (u8, u8))
    requires
        i32::MIN <= 0x10 * eff_num <= i32::MAX,
        i32::MIN <= 0x10 * eff_num + min(eff_val as int, 0xF) <= i32::MAX,
    ensures
        r == fine_portamento_up_down_cmd(eff_num as int, eff_val as int),
{
    let eff_val = if eff_val < 0xF { eff_val } else { 0xF };
    (0x0E, (0x10 * eff_num + eff_val) as u8)
}

pub open spec fn set_volume_cmd(v: int) -> (u8, u8) {
    (0xC, ((v + 1) / 4) as u8)
}

/// `Cxx` - set channel volume (the `+ 1` makes `0xFF` round up to `0x40`).
pub fn set_volume(eff_val: i32) -> (r: (u8, u8))
    requires
        eff_val < i32::MAX,
    ensures
        r == set_volume_cmd(eff_val as int),
{
    let x = eff_val + 1;
    let b = ((x >> 2) & 0xFF) as u8;
    assert(b == ((x as int) / 4) as u8) by (bit_vector)
        requires b == ((x >> 2) & 0xFF) as u8;
    (0xC, b)
}

/// `3xx` - tone portamento: refused when a nonzero speed rounds to zero, which happens exactly
/// when there are no ticks to slide over.
pub open spec fn tone_portamento_cmd(v: int, ticks: int) -> Result<(u8, u8), Error> {
    let value = portamento_value(v, ticks);
    if value == 0 && v != 0 {
        Err(Error::Conversion(ConversionError::TonePortamentoDiscarded))
    } else {
        Ok((0x03, value as u8))
    }
}

pub fn tone_portamento(eff_val: i32, ticks_per_row: i32) -> (r: Result<(u8, u8), Error>)
    ensures
        r == tone_portamento_cmd(eff_val as int, ticks_per_row as int),
        r is Err <==> (eff_val != 0 && tick_divider_spec(ticks_per_row as int) == 0),
{
    let value = get_portamento_value(eff_val, ticks_per_row);
    if value == 0 && eff_val != 0 {
        return Err(Error::Conversion(ConversionError::TonePortamentoDiscarded));
    }
    Ok((0x03, value as u8))
}

pub open spec fn volume_slide_up_cmd(v: int, ticks: int) -> (u8, u8) {
    (0xA, (min(volume_slide_value(v, ticks), 0xF) * 16) as u8)
}

pub open spec fn volume_slide_down_cmd(v: int, ticks: int) -> (u8, u8) {
    (0xA, min(volume_slide_value(v, ticks), 0xF) as u8)
}

pub open spec fn volume_fine_up_cmd(v: int) -> (u8, u8) {
    (0xE, (min(v / 4, 0xF) + 0xA0) as u8)
}

pub open spec fn volume_fine_down_cmd(v: int) -> (u8, u8) {
    (0xE, (min(v / 4, 0xF) + 0xB0) as u8)
}

/// `Axy` (coarse) or `EAx` (fine) volume slide up.
pub open spec fn volume_up_cmd(v: int, ticks: int) -> (u8, u8) {
    if fine_volume_closer(v, ticks) { volume_fine_up_cmd(v) } else { volume_slide_up_cmd(v, ticks) }
}

/// `Axy` (coarse) or `EBx` (fine) volume slide down.
pub open spec fn volume_down_cmd(v: int, ticks: int) -> (u8, u8) {
    if fine_volume_closer(v, ticks) { volume_fine_down_cmd(v) } else { volume_slide_down_cmd(v, ticks) }
}

/// A fine volume slide is the extended command `E` whose value carries the direction in its
/// high nibble (`A` up, `B` down) and the slide amount, a quarter of the Renoise value capped at
/// 15, in its low nibble; so the up and down forms of a value always differ. A coarse slide is
/// command `A` with the amount in the high nibble going up and in the low nibble going down.
pub proof fn law_volume_slide_directions(v: int, ticks: int)
    requires
        0 <= v <= i32::MAX,
    ensures
        volume_fine_up_cmd(v).0 == 0xE && volume_fine_down_cmd(v).0 == 0xE,
        volume_fine_up_cmd(v).1 / 16 == 0xA,
        volume_fine_down_cmd(v).1 / 16 == 0xB,
        volume_fine_up_cmd(v).1 % 16 == min(v / 4, 15),
        volume_fine_down_cmd(v).1 % 16 == min(v / 4, 15),
        volume_fine_up_cmd(v) != volume_fine_down_cmd(v),
        fine_volume_closer(v, ticks) ==> volume_up_cmd(v, ticks).0 == 0xE && volume_up_cmd(v, ticks).1 / 16 == 0xA
            && volume_down_cmd(v, ticks).0 == 0xE && volume_down_cmd(v, ticks).1 / 16 == 0xB,
        !fine_volume_closer(v, ticks) && volume_slide_value(v, ticks) >= 0 ==> {
            &&& volume_up_cmd(v, ticks).0 == 0xA && volume_up_cmd(v, ticks).1 % 16 == 0
            &&& volume_down_cmd(v, ticks).0 == 0xA && volume_down_cmd(v, ticks).1 / 16 == 0
            &&& volume_up_cmd(v, ticks).1 / 16 == volume_down_cmd(v, ticks).1 % 16
        },
{
}

pub fn volume_up(eff_val: i32, ticks_per_row: i32) -> (r: (u8, u8))
    requires
        fine_volume_closer_defined(eff_val as int, ticks_per_row as int),
    ensures
        r == volume_up_cmd(eff_val as int, ticks_per_row as int),
{
    if is_fine_volume_closer_to_value(eff_val, ticks_per_row) {
        volume_fine_up(eff_val)
    } else {
        volume_slide_up(eff_val, ticks_per_row)
    }
}

pub fn volume_slide_up(eff_val: i32, ticks_per_row: i32) -> (r: (u8, u8))
    ensures
        r == volume_slide_up_cmd(eff_val as int, ticks_per_row as int),
{
    let s = get_volume_slide_value(eff_val, ticks_per_row);
    let v = if s < 0xF { s } else { 0xF };
    let x = v << 4;
    let b = x as u8;
    assert(b == ((v as int) * 16) as u8) by (bit_vector)
        requires x == v << 4, b == x as u8;
    (0xA, b)
}

pub fn volume_fine_up(eff_val: i32) -> (r: (u8, u8))
    ensures
        r == volume_fine_up_cmd(eff_val as int),
{
    let q = eff_val >> 2;
    assert(q as int == (eff_val as int) / 4) by (bit_vector)
        requires q == eff_val >> 2;
    let v = if q < 0xF { q } else { 0xF };
    (0xE, (v + 0xA0) as u8)
}

pub fn volume_down(eff_val: i32, ticks_per_row: i32) -> (r: (u8, u8))
    requires
        fine_volume_closer_defined(eff_val as int, ticks_per_row as int),
    ensures
        r == volume_down_cmd(eff_val as int, ticks_per_row as int),
{
    if is_fine_volume_closer_to_value(eff_val, ticks_per_row) {
        volume_fine_down(eff_val)
    } else {
        volume_slide_down(eff_val, ticks_per_row)
    }
}

pub fn volume_slide_down(eff_val: i32, ticks_per_row: i32) -> (r: (u8, u8))
    ensures
        r == volume_slide_down_cmd(eff_val as int, ticks_per_row as int),
{
    let s = get_volume_slide_value(eff_val, ticks_per_row);
    let v = if s < 0xF { s } else { 0xF };
    (0xA, v as u8)
}

pub fn volume_fine_down(eff_val: i32) -> (r: (u8, u8))
    ensures
        r == volume_fine_down_cmd(eff_val as int),
{
    let q = eff_val >> 2;
    assert(q as int == (eff_val as int) / 4) by (bit_vector)
        requires q == eff_val >> 2;
    let v = if q < 0xF { q } else { 0xF };
    (0xE, (v + 0xB0) as u8)
}

pub open spec fn set_panning_cmd(v: int) -> (u8, u8) {
    (0x08, v as u8)
}

/// `8xx` - set panning.
pub fn set_panning(eff_val: i32) -> (r: (u8, u8))
    ensures
        r == set_panning_cmd(eff_val as int),
{
    (0x08, eff_val as u8)
}

/// `eff_val << 1` as an `i32` shift (which wraps).
pub open spec fn i32_shl1(v: int) -> int {
    ((2 * v) as i32) as int
}

pub open spec fn panning_from_panning_cmd(v: int) -> (u8, u8) {
    set_panning_cmd(min(i32_shl1(v), 0xFF))
}

/// Panning column `0x-8x` to `8xx` set panning (used by XM only).
pub fn transpose_set_panning_from_panning(eff_val: i32) -> (r: (u8, u8))
    ensures
        r == panning_from_panning_cmd(eff_val as int),
{
    let x = eff_val << 1;
    assert(x as int == ((2 * (eff_val as int)) as i32) as int) by (bit_vector)
        requires x == eff_val << 1;
    let eff_val = if x < 0xFF { x } else { 0xFF };
    set_panning(eff_val)
}

/// The `9xx` offset: Renoise's 1/256 fraction of the sample scaled to 256-byte units, or the
/// raw value in sample-offset compatibility mode or without a known sample size.
pub open spec fn sample_offset_value(orig: int, size: int, compat: bool) -> u8 {
    if !compat && size > 0 { min((size * orig) / 65536, 0xFF) as u8 } else { orig as u8 }
}

pub open spec fn sample_offset_defined(orig: int, size: int, compat: bool) -> bool {
    (!compat && size > 0) ==> i32::MIN <= size * orig <= i32::MAX
}

pub fn get_sample_offset_value(orig: i32, sample_size: i32, sample_offset_compatibility_mode: bool) -> (r: u8)
    requires
        sample_offset_defined(orig as int, sample_size as int, sample_offset_compatibility_mode),
    ensures
        r == sample_offset_value(orig as int, sample_size as int, sample_offset_compatibility_mode),
{
    if !sample_offset_compatibility_mode && sample_size > 0 {
        let p = sample_size * orig;
        let mod_offset = p >> 16;
        assert(mod_offset as int == (p as int) / 65536) by (bit_vector)
            requires mod_offset == p >> 16;
        let m = if mod_offset < 0xFF { mod_offset } else { 0xFF };
        m as u8
    } else {
        orig as u8
    }
}

/// `9xx` - play the sample from an offset.
pub fn set_sample_offset(eff_val: i32, sample_size: i32, sample_offset_compatibility_mode: bool) -> (r: (u8, u8))
    requires
        sample_offset_defined(eff_val as int, sample_size as int, sample_offset_compatibility_mode),
    ensures
        r == (0x9u8, sample_offset_value(eff_val as int, sample_size as int, sample_offset_compatibility_mode)),
{
    (0x9, get_sample_offset_value(eff_val, sample_size, sample_offset_compatibility_mode))
}

pub open spec fn note_delay_cmd(v: int) -> (u8, u8) {
    (0xE, (0xD0 + min(v, 0xF)) as u8)
}

/// `EDx` - delay the note by x ticks.
pub fn note_delay(eff_val: i32) -> (r: (u8, u8))
    ensures
        r == note_delay_cmd(eff_val as int),
{
    let v = if eff_val < 0xF { eff_val } else { 0xF };
    (0xE, (0xD0 + v) as u8)
}

pub open spec fn retrig_note_cmd(v: int) -> (u8, u8) {
    (0xE, (0x90 + v % 16) as u8)
}

/// `E9x` - retrigger the note every x ticks.
pub fn retrig_note(eff_val: i32) -> (r: (u8, u8))
    ensures
        r == retrig_note_cmd(eff_val as int),
{
    let low = eff_val & 0x0F;
    assert(low as int == (eff_val as int) % 16) by (bit_vector)
        requires low == eff_val & 0x0F;
    (0xE, (0x90 + low) as u8)
}

/// `4xy` - vibrato.
pub fn vibrato(eff_val: i32) -> (r: (u8, u8))
    ensures
        r == (0x04u8, eff_val as u8),
{
    (0x04, eff_val as u8)
}

/// `7xy` - tremolo.
pub fn tremolo(eff_val: i32) -> (r: (u8, u8))
    ensures
        r == (0x07u8, eff_val as u8),
{
    (0x07, eff_val as u8)
}

/// `Fxx` - set speed (ticks per row).
pub fn set_speed(eff_val: i32) -> (r: (u8, u8))
    ensures
        r == (0x0Fu8, eff_val as u8),
{
    (0x0F, eff_val as u8)
}

/// `Fxx` - set tempo. MOD tempo values start at `0x21`; lower values become a no-op.
pub fn set_tempo(eff_val: i32) -> (r: (u8, u8))
    ensures
        r == (if eff_val <= 0x20 { (0u8, 0u8) } else { (0x0Fu8, eff_val as u8) }),
{
    if eff_val <= 0x20 { (0, 0) } else { (0x0F, eff_val as u8) }
}

pub open spec fn pattern_delay_cmd(v: int) -> (u8, u8) {
    (0xE, (0xE0 + min(v, 0xF)) as u8)
}

/// `EEx` - pattern delay.
pub fn pattern_delay(val: i32) -> (r: (u8, u8))
    ensures
        r == pattern_delay_cmd(val as int),
{
    let v = if val < 0xF { val } else { 0xF };
    (0xE, (0xE0 + v) as u8)
}

/// `Dxx` - pattern break to row `eff_val` (the value itself, with no decimal reinterpretation).
pub fn pattern_break(eff_val: i32) -> (r: (u8, u8))
    ensures
        r == (0xDu8, eff_val as u8),
{
    (0xD, eff_val as u8)
}

pub open spec fn note_cut_cmd(v: int) -> (u8, u8) {
    (0xE, (0xC0 + v) as u8)
}

/// `ECx` - note cut.
pub fn note_cut(eff_val: i32) -> (r: (u8, u8))
    requires
        eff_val + 0xC0 <= i32::MAX,
    ensures
        r == note_cut_cmd(eff_val as int),
{
    (0xE, (0xC0 + eff_val) as u8)
}

pub open spec fn set_volume_from_volume_cmd(v: int) -> (u8, u8) {
    (0x0C, (v / 2) as u8)
}

/// Volume column `00-80` to `Cxx` set volume.
pub fn transpose_set_volume_from_volume(eff_val: i32) -> (r: (u8, u8))
    ensures
        r == set_volume_from_volume_cmd(eff_val as int),
{
    let h = eff_val >> 1;
    assert(h as int == (eff_val as int) / 2) by (bit_vector)
        requires h == eff_val >> 1;
    (0x0C, h as u8)
}

/// Volume column `'I'` to a volume slide up, through the fine/coarse choice.
pub fn transpose_volume_slide_up_from_volume(eff_val: i32, ticks_per_row: i32) -> (r: (u8, u8))
    requires
        i32::MIN <= eff_val * 0x10 <= i32::MAX,
        fine_volume_closer_defined(eff_val * 0x10, ticks_per_row as int),
    ensures
        r == volume_up_cmd(eff_val * 0x10, ticks_per_row as int),
{
    volume_up(eff_val * 0x10, ticks_per_row)
}

/// Volume column `'O'` to a volume slide down, through the same fine/coarse choice as `'I'`.
pub fn transpose_volume_slide_down_from_volume(eff_val: i32, ticks_per_row: i32) -> (r: (u8, u8))
    requires
        i32::MIN <= eff_val * 0x10 <= i32::MAX,
        fine_volume_closer_defined(eff_val * 0x10, ticks_per_row as int),
    ensures
        r == volume_down_cmd(eff_val * 0x10, ticks_per_row as int),
{
    volume_down(eff_val * 0x10, ticks_per_row)
}

} // verus!
