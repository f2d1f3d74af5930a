//! XM effect-command encoders. XM's pitch effects divide linearly by the ticks per row, with no
//! Amiga period tracking; the commands XM shares with MOD come from [`crate::commands`].
use vstd::prelude::*;

use crate::commands::{fine_portamento_up_down, fine_portamento_up_down_cmd};
use crate::common::{
    fine_portamento_closer, get_volume_slide_value, is_fine_portamento_closer_to_value, pitch_slide_loss_defined,
    tick_divider, tick_divider_spec, volume_slide_value,
};
use crate::error::{ConversionError, Error};
use crate::numeric::{min, round_div, round_div_sat, saturate_i32, trunc_div, trunc_div_i32};

verus! {

/// `v << 4` as an `i32` shift (which wraps).
pub open spec fn i32_shl4(v: int) -> int {
    ((16 * v) as i32) as int
}

fn shl4(v: i32) -> (r: i32)
    ensures
        r == i32_shl4(v as int),
{
    let x = v << 4;
    assert(x as int == ((16 * (v as int)) as i32) as int) by (bit_vector)
        requires x == v << 4;
    x
}

/// XM's per-tick pitch slide speed: the value divided by the ticks a row slides over, rounded,
/// unless pitch compatibility mode keeps it raw (and the column command does not override it).
/// A nonzero speed that rounds to zero is refused.
pub open spec fn xm_portamento_value_spec(orig: int, ticks: int, ignore_pitch_compat: bool, pitch_compat: bool) -> Result<i32, Error> {
    if ignore_pitch_compat || !pitch_compat {
        let d = tick_divider_spec(ticks);
        let value = if d == 0 { 0 } else { saturate_i32(round_div(orig, d)) };
        if value == 0 && orig != 0 {
            Err(Error::Conversion(ConversionError::PortamentoDiscarded))
        } else {
            Ok(value as i32)
        }
    } else {
        Ok(orig as i32)
    }
}

pub fn xm_portamento_value(
    original_value: i32,
    ticks_per_row: i32,
    ignore_pitch_compatibility_mode: bool,
    pitch_compatibility_mode: bool,
) -> (r: Result<i32, Error>)
    ensures
        r == xm_portamento_value_spec(original_value as int, ticks_per_row as int, ignore_pitch_compatibility_mode, pitch_compatibility_mode),
{
    if ignore_pitch_compatibility_mode || !pitch_compatibility_mode {
        let divider = tick_divider(ticks_per_row);
        let value = if divider == 0 { 0 } else { round_div_sat(original_value as i64, divider as i64) };
        if value == 0 && original_value != 0 {
            return Err(Error::Conversion(ConversionError::PortamentoDiscarded));
        }
        Ok(value)
    } else {
        Ok(original_value)
    }
}

/// `21 9F` - the FT2 extended command that plays the sample backwards.
pub fn play_sample_backward() -> (r: (u8, u8))
    ensures
        r == (0x21u8, 0x9Fu8),
{
    (0x21, 0x9F)
}

/// Volume/panning column `'B'`: backward (`0`) or forward playback.
pub fn transpose_play_sample_direction_vol_pan_column(eff_val: i32) -> (r: (u8, u8))
    requires
        0x9F - eff_val <= i32::MAX,
    ensures
        r == (0x21u8, (0x9F - eff_val) as u8),
{
    (0x21, (0x9F - eff_val) as u8)
}

/// Renoise's multi-retrigger volume change nibble translated to XM's table.
pub open spec fn retrig_volume(v: int) -> int {
    if v == 0 || v == 1 || v == 6 || v == 7 || v == 9 || v == 0x0E || v == 0x0F {
        v
    } else if v == 2 || v == 3 || v == 4 || v == 0x0A || v == 0x0B || v == 0x0C {
        v + 1
    } else if v == 5 || v == 0x0D {
        v + 2
    } else {
        0
    }
}

/// `1Bxy` - multi-retrigger: XM's volume change for Renoise's in the high nibble, the ticks in the
/// low nibble.
pub open spec fn multi_retrig_cmd(v: i32) -> (u8, u8) {
    let volume_value = ((v & 0xF0) >> 4) as int;
    let ticks_value = (v & 0x0F) as int;
    (0x1B, (16 * retrig_volume(volume_value) + ticks_value) as u8)
}

pub fn multi_retrig(eff_val: i32) -> (r: (u8, u8))
    ensures
        r == multi_retrig_cmd(eff_val),
{
    let volume_value = (eff_val & 0xF0) >> 4;
    let ticks_value = eff_val & 0x0F;
    assert(0 <= volume_value <= 15 && 0 <= ticks_value <= 15) by (bit_vector)
        requires volume_value == (eff_val & 0xF0) >> 4, ticks_value == eff_val & 0x0F;
    let converted: i32 = if volume_value == 0 || volume_value == 1 || volume_value == 6 || volume_value == 7
        || volume_value == 9 || volume_value == 0x0E || volume_value == 0x0F {
        volume_value
    } else if volume_value == 2 || volume_value == 3 || volume_value == 4 || volume_value == 0x0A
        || volume_value == 0x0B || volume_value == 0x0C {
        volume_value + 1
    } else if volume_value == 5 || volume_value == 0x0D {
        volume_value + 2
    } else {
        0
    };
    let shifted = converted << 4;
    assert(shifted == 16 * converted) by (bit_vector)
        requires shifted == converted << 4, 0 <= converted <= 17;
    (0x1B, (shifted + ticks_value) as u8)
}

/// `10xx` - set global volume: Renoise's `00-C0` scaled to XM's `00-40`.
pub open spec fn set_global_volume_cmd(v: int) -> (u8, u8) {
    (0x10, trunc_div(min(v, 0xC0), 3) as u8)
}

pub fn set_global_volume(eff_val: i32) -> (r: (u8, u8))
    ensures
        r == set_global_volume_cmd(eff_val as int),
{
    let v = if eff_val < 0xC0 { eff_val } else { 0xC0 };
    (0x10, trunc_div_i32(v, 3) as u8)
}

/// `11x0` - global volume slide up.
pub open spec fn global_volume_slide_up_cmd(v: int, ticks: int) -> (u8, u8) {
    (0x11, (16 * min(volume_slide_value(v, ticks), 0xF)) as u8)
}

pub fn global_volume_slide_up(value: i32, ticks_per_row: i32) -> (r: (u8, u8))
    ensures
        r == global_volume_slide_up_cmd(value as int, ticks_per_row as int),
{
    let s = get_volume_slide_value(value, ticks_per_row);
    let v = if s < 0xF { s } else { 0xF };
    let x = v << 4;
    let b = x as u8;
    assert(b == (16 * (v as int)) as u8) by (bit_vector)
        requires x == v << 4, b == x as u8;
    (0x11, b)
}

/// `110x` - global volume slide down.
pub open spec fn global_volume_slide_down_cmd(v: int, ticks: int) -> (u8, u8) {
    (0x11, min(volume_slide_value(v, ticks), 0xF) as u8)
}

pub fn global_volume_slide_down(value: i32, ticks_per_row: i32) -> (r: (u8, u8))
    ensures
        r == global_volume_slide_down_cmd(value as int, ticks_per_row as int),
{
    let s = get_volume_slide_value(value, ticks_per_row);
    let v = if s < 0xF { s } else { 0xF };
    (0x11, v as u8)
}

/// `0Fxx` - set tempo. XM's `Fxx` sets the speed below `0x20`, so a lower tempo is a no-op.
pub open spec fn xm_set_tempo_cmd(v: int) -> (u8, u8) {
    if v < 0x20 { (0, 0) } else { (0x0F, v as u8) }
}

pub fn set_tempo(eff_val: i32) -> (r: (u8, u8))
    ensures
        r == xm_set_tempo_cmd(eff_val as int),
{
    if eff_val < 0x20 { (0, 0) } else { (0x0F, eff_val as u8) }
}

/// An XM command number with a speed from [`xm_portamento_value_spec`].
pub open spec fn xm_speed_cmd(num: int, v: int, ticks: int, ignore_pitch_compat: bool, pitch_compat: bool) -> Result<(u8, u8), Error> {
    match xm_portamento_value_spec(v, ticks, ignore_pitch_compat, pitch_compat) {
        Ok(value) => Ok((num as u8, value as u8)),
        Err(e) => Err(e),
    }
}

/// `03xx` - tone portamento.
pub fn tone_portamento(
    eff_val: i32,
    ticks_per_row: i32,
    ignore_pitch_compatibility_mode: bool,
    pitch_compatibility_mode: bool,
) -> (r: Result<(u8, u8), Error>)
    ensures
        r == xm_speed_cmd(3, eff_val as int, ticks_per_row as int, ignore_pitch_compatibility_mode, pitch_compatibility_mode),
{
    let value = xm_portamento_value(eff_val, ticks_per_row, ignore_pitch_compatibility_mode, pitch_compatibility_mode)?;
    Ok((0x03, value as u8))
}

/// `01xx`/`02xx` - coarse pitch slide.
pub fn portamento_up_down(
    eff_num: i32,
    eff_val: i32,
    ticks_per_row: i32,
    ignore_pitch_compatibility_mode: bool,
    pitch_compatibility_mode: bool,
) -> (r: Result<(u8, u8), Error>)
    ensures
        r == xm_speed_cmd(eff_num as int, eff_val as int, ticks_per_row as int, ignore_pitch_compatibility_mode, pitch_compatibility_mode),
{
    let value = xm_portamento_value(eff_val, ticks_per_row, ignore_pitch_compatibility_mode, pitch_compatibility_mode)?;
    Ok((eff_num as u8, value as u8))
}

/// XM pitch slide: fine (`0E1x`/`0E2x`) outside pitch compatibility mode when that loses
/// precision than the coarse command (with no loss threshold), else coarse.
pub open spec fn xm_portamento_cmd(num: int, v: int, ticks: int, ignore_pitch_compat: bool, pitch_compat: bool) -> Result<(u8, u8), Error> {
    if !pitch_compat && fine_portamento_closer(v, ticks, 0) {
        Ok(fine_portamento_up_down_cmd(num, v))
    } else {
        xm_speed_cmd(num, v, ticks, ignore_pitch_compat, pitch_compat)
    }
}

pub open spec fn xm_portamento_defined(num: int, v: int, ticks: int, pitch_compat: bool) -> bool {
    &&& (!pitch_compat && v > 0) ==> pitch_slide_loss_defined(v, ticks)
    &&& (!pitch_compat && fine_portamento_closer(v, ticks, 0))
        ==> (i32::MIN <= 0x10 * num <= i32::MAX && i32::MIN <= 0x10 * num + min(v, 0xF) <= i32::MAX)
}

pub fn portamento(
    eff_num: i32,
    eff_val: i32,
    ticks_per_row: i32,
    ignore_pitch_compatibility_mode: bool,
    pitch_compatibility_mode: bool,
) -> (r: Result<(u8, u8), Error>)
    requires
        xm_portamento_defined(eff_num as int, eff_val as int, ticks_per_row as int, pitch_compatibility_mode),
    ensures
        r == xm_portamento_cmd(eff_num as int, eff_val as int, ticks_per_row as int, ignore_pitch_compatibility_mode, pitch_compatibility_mode),
{
    let use_fine = !pitch_compatibility_mode && is_fine_portamento_closer_to_value(eff_val, ticks_per_row, 0);
    if use_fine {
        Ok(fine_portamento_up_down(eff_num, eff_val))
    } else {
        portamento_up_down(eff_num, eff_val, ticks_per_row, ignore_pitch_compatibility_mode, pitch_compatibility_mode)
    }
}

/// Volume/panning column `'G'`: glide at sixteen times the digit, always divided by the ticks;
/// the top digit and above glide at full speed `FF`.
pub open spec fn glide_vol_pan_cmd(v: int, ticks: int, pitch_compat: bool) -> Result<(u8, u8), Error> {
    if v < 0x0F { xm_speed_cmd(3, i32_shl4(v), ticks, true, pitch_compat) } else { Ok((0x03, 0xFF)) }
}

pub fn transpose_glide_vol_pan_column(eff_val: i32, ticks_per_row: i32, pitch_compatibility_mode: bool) -> (r: Result<(u8, u8), Error>)
    ensures
        r == glide_vol_pan_cmd(eff_val as int, ticks_per_row as int, pitch_compatibility_mode),
{
    if eff_val < 0x0F {
        let value = xm_portamento_value(shl4(eff_val), ticks_per_row, true, pitch_compatibility_mode)?;
        Ok((0x03, value as u8))
    } else {
        Ok((0x03, 0xFF))
    }
}

/// Volume/panning column `'U'`: pitch slide up at sixteen times the digit, always divided.
pub fn transpose_portamento_up_vol_pan_column(eff_val: i32, ticks_per_row: i32, pitch_compatibility_mode: bool) -> (r: Result<(u8, u8), Error>)
    ensures
        r == xm_speed_cmd(1, i32_shl4(eff_val as int), ticks_per_row as int, true, pitch_compatibility_mode),
{
    let value = xm_portamento_value(shl4(eff_val), ticks_per_row, true, pitch_compatibility_mode)?;
    Ok((1, value as u8))
}

/// Volume/panning column `'D'`: pitch slide down at sixteen times the digit, always divided.
pub fn transpose_portamento_down_vol_pan_column(eff_val: i32, ticks_per_row: i32, pitch_compatibility_mode: bool) -> (r: Result<(u8, u8), Error>)
    ensures
        r == xm_speed_cmd(2, i32_shl4(eff_val as int), ticks_per_row as int, true, pitch_compatibility_mode),
{
    let value = xm_portamento_value(shl4(eff_val), ticks_per_row, true, pitch_compatibility_mode)?;
    Ok((2, value as u8))
}

/// Per-tick panning slide speed: the value divided by the ticks, truncated.
pub open spec fn panning_slide_value_spec(orig: int, ticks: int) -> int {
    let d = tick_divider_spec(ticks);
    if d == 0 { 0 } else { trunc_div(orig, d) }
}

pub open spec fn panning_slide_defined(orig: int, ticks: int) -> bool {
    !(orig == i32::MIN && tick_divider_spec(ticks) == -1)
}

pub fn panning_slide_value(original_value: i32, ticks_per_row: i32) -> (r: i32)
    requires
        panning_slide_defined(original_value as int, ticks_per_row as int),
    ensures
        r == panning_slide_value_spec(original_value as int, ticks_per_row as int),
{
    let divider = tick_divider(ticks_per_row);
    if divider == 0 { 0 } else { trunc_div_i32(original_value, divider) }
}

/// Volume column set-volume byte `10-50`: the Renoise `00-80` volume halved, plus `0x10`.
pub open spec fn set_volume_volume_column_byte(v: int) -> u8 {
    (v / 2 + 0x10) as u8
}

pub fn set_volume_volume_column(eff_val: i32) -> (r: u8)
    ensures
        r == set_volume_volume_column_byte(eff_val as int),
{
    let h = eff_val >> 1;
    assert(h as int == (eff_val as int) / 2) by (bit_vector)
        requires h == eff_val >> 1;
    (h + 0x10) as u8
}

/// Volume column set-panning byte `C0-CF`.
pub open spec fn set_panning_volume_column_byte(v: int) -> u8 {
    (min(v / 8, 0xF) + 0xC0) as u8
}

pub fn set_panning_volume_column(eff_val: i32) -> (r: u8)
    ensures
        r == set_panning_volume_column_byte(eff_val as int),
{
    let q = eff_val >> 3;
    assert(q as int == (eff_val as int) / 8) by (bit_vector)
        requires q == eff_val >> 3;
    let v = if q < 0xF { q } else { 0xF };
    (v + 0xC0) as u8
}

/// Fine volume step of the volume column: four times the low digit, at most `F`.
pub open spec fn fine_volume_step(v: int) -> int {
    min(4 * (v % 16), 0xF)
}

pub fn fine_volume_up_volume_column(eff_val: i32) -> (r: u8)
    ensures
        r == (fine_volume_step(eff_val as int) + 0x90) as u8,
{
    let x = (eff_val & 0xF) << 2;
    assert(x as int == 4 * ((eff_val as int) % 16)) by (bit_vector)
        requires x == (eff_val & 0xF) << 2;
    let v = if x < 0xF { x } else { 0xF };
    (v + 0x90) as u8
}

pub fn fine_volume_down_volume_column(eff_val: i32) -> (r: u8)
    ensures
        r == (fine_volume_step(eff_val as int) + 0x80) as u8,
{
    let x = (eff_val & 0xF) << 2;
    assert(x as int == 4 * ((eff_val as int) % 16)) by (bit_vector)
        requires x == (eff_val & 0xF) << 2;
    let v = if x < 0xF { x } else { 0xF };
    (v + 0x80) as u8
}

/// Coarse volume step of the volume column: sixteen times the low digit as a slide, at most `F`.
pub open spec fn volume_slide_step(v: int, ticks: int) -> int {
    min(volume_slide_value(16 * (v % 16), ticks), 0xF)
}

pub fn volume_slide_up_volume_column(eff_val: i32, ticks_per_row: i32) -> (r: u8)
    ensures
        r == (volume_slide_step(eff_val as int, ticks_per_row as int) + 0x70) as u8,
{
    let x = (eff_val & 0xF) << 4;
    assert(x as int == 16 * ((eff_val as int) % 16)) by (bit_vector)
        requires x == (eff_val & 0xF) << 4;
    let s = get_volume_slide_value(x, ticks_per_row);
    let v = if s < 0xF { s } else { 0xF };
    (v + 0x70) as u8
}

pub fn volume_slide_down_volume_column(eff_val: i32, ticks_per_row: i32) -> (r: u8)
    ensures
        r == (volume_slide_step(eff_val as int, ticks_per_row as int) + 0x60) as u8,
{
    let x = (eff_val & 0xF) << 4;
    assert(x as int == 16 * ((eff_val as int) % 16)) by (bit_vector)
        requires x == (eff_val & 0xF) << 4;
    let s = get_volume_slide_value(x, ticks_per_row);
    let v = if s < 0xF { s } else { 0xF };
    (v + 0x60) as u8
}

/// Volume column `'I'`: fine fade in below `5`, else a per-tick slide.
pub open spec fn volume_up_volume_column_byte(v: int, ticks: int) -> u8 {
    if v < 0x05 { (fine_volume_step(v) + 0x90) as u8 } else { (volume_slide_step(v, ticks) + 0x70) as u8 }
}

pub fn volume_up_volume_column(eff_val: i32, ticks_per_row: i32) -> (r: u8)
    ensures
        r == volume_up_volume_column_byte(eff_val as int, ticks_per_row as int),
{
    if eff_val < 0x05 { fine_volume_up_volume_column(eff_val) } else { volume_slide_up_volume_column(eff_val, ticks_per_row) }
}

/// Volume column `'O'`: fine fade out below `5`, else a per-tick slide.
pub open spec fn volume_down_volume_column_byte(v: int, ticks: int) -> u8 {
    if v < 0x05 { (fine_volume_step(v) + 0x80) as u8 } else { (volume_slide_step(v, ticks) + 0x60) as u8 }
}

pub fn volume_down_volume_column(eff_val: i32, ticks_per_row: i32) -> (r: u8)
    ensures
        r == volume_down_volume_column_byte(eff_val as int, ticks_per_row as int),
{
    if eff_val < 0x05 { fine_volume_down_volume_column(eff_val) } else { volume_slide_down_volume_column(eff_val, ticks_per_row) }
}

/// Volume-column panning slide step: the digit (at most 8) times sixteen, divided by the ticks,
/// at most `F`.
pub open spec fn pan_slide_step(v: int, ticks: int) -> int {
    min(panning_slide_value_spec(i32_shl4(min(v, 8)), ticks), 0x0F)
}

pub open spec fn pan_slide_defined(v: int, ticks: int) -> bool {
    panning_slide_defined(i32_shl4(min(v, 8)), ticks)
}

/// Panning column `'J'` to the volume column panning slide left `D0-DF`.
pub fn pan_slide_left_volume_column(eff_val: i32, ticks_per_row: i32) -> (r: u8)
    requires
        pan_slide_defined(eff_val as int, ticks_per_row as int),
    ensures
        r == (pan_slide_step(eff_val as int, ticks_per_row as int) + 0xD0) as u8,
{
    let clamped = shl4(if eff_val < 0x08 { eff_val } else { 0x08 });
    let s = panning_slide_value(clamped, ticks_per_row);
    let v = if s < 0x0F { s } else { 0x0F };
    (v + 0xD0) as u8
}

/// Panning column `'K'` to the volume column panning slide right `E0-EF`.
pub fn pan_slide_right_volume_column(eff_val: i32, ticks_per_row: i32) -> (r: u8)
    requires
        pan_slide_defined(eff_val as int, ticks_per_row as int),
    ensures
        r == (pan_slide_step(eff_val as int, ticks_per_row as int) + 0xE0) as u8,
{
    let clamped = shl4(if eff_val < 0x08 { eff_val } else { 0x08 });
    let s = panning_slide_value(clamped, ticks_per_row);
    let v = if s < 0x0F { s } else { 0x0F };
    (v + 0xE0) as u8
}

/// Effect-column panning slide speed: the digit times sixteen divided by the ticks, at most `F`.
pub open spec fn panning_slide_effect_step(v: int, ticks: int) -> int {
    min(panning_slide_value_spec(i32_shl4(v), ticks), 0x0F)
}

pub open spec fn panning_slide_effect_defined(v: int, ticks: int) -> bool {
    panning_slide_defined(i32_shl4(v), ticks)
}

/// `19x0` - panning slide left.
pub fn transpose_panning_slide_left(eff_val: i32, ticks_per_row: i32) -> (r: (u8, u8))
    requires
        panning_slide_effect_defined(eff_val as int, ticks_per_row as int),
    ensures
        r == (0x19u8, (16 * panning_slide_effect_step(eff_val as int, ticks_per_row as int)) as u8),
{
    let s = panning_slide_value(shl4(eff_val), ticks_per_row);
    let v = if s < 0x0F { s } else { 0x0F };
    let x = v << 4;
    let b = x as u8;
    assert(b == (16 * (v as int)) as u8) by (bit_vector)
        requires x == v << 4, b == x as u8;
    (0x19, b)
}

/// `190x` - panning slide right.
pub fn transpose_panning_slide_right(eff_val: i32, ticks_per_row: i32) -> (r: (u8, u8))
    requires
        panning_slide_effect_defined(eff_val as int, ticks_per_row as int),
    ensures
        r == (0x19u8, panning_slide_effect_step(eff_val as int, ticks_per_row as int) as u8),
{
    let s = panning_slide_value(shl4(eff_val), ticks_per_row);
    let v = if s < 0x0F { s } else { 0x0F };
    (0x19, v as u8)
}

} // verus!
