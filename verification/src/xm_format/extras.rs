//! Column volume scaling: rewriting a note's volume-column or effect-column volume instead of
//! the sample data. The scaled values come from the sample's [`ColumnVolume`] table.
use vstd::prelude::*;

use crate::error::{ConversionError, Error};
use crate::model::ColumnVolume;

verus! {

pub const MAX_SAMPLE_VOLUME: i32 = 0x40;
pub const VOLUME_COLUMN_SET_VOLUME_DELTA: u8 = 0x10;

/// A column volume table covers every value from -16 to 255.
pub open spec fn column_volume_wf(column: ColumnVolume) -> bool {
    column.scaled@.len() == 272
}

/// The scaled value of `v` (in `-16..=255`).
pub open spec fn scaled_of(column: ColumnVolume, v: int) -> i32 {
    column.scaled@[v + 16]
}

/// A volume-column byte that sets the volume (`10-50`).
pub fn is_volume_set_on_volume_column(volume: u8) -> (r: bool)
    ensures
        r == (0x10 <= volume <= 0x50),
{
    let d: u8 = if volume >= VOLUME_COLUMN_SET_VOLUME_DELTA { volume - VOLUME_COLUMN_SET_VOLUME_DELTA } else {
        ((volume as u16 + 256) - VOLUME_COLUMN_SET_VOLUME_DELTA as u16) as u8
    };
    d <= MAX_SAMPLE_VOLUME as u8
}

/// The effect `0x0C`, set channel volume.
pub fn is_volume_set_on_effect_column(command: u8) -> (r: bool)
    ensures
        r == (command == 0x0C),
{
    command == 0x0C
}

/// A scaled volume, refused above the nominal volume (column scaling only attenuates).
pub open spec fn checked_volume(scaled: i32) -> Result<i32, Error> {
    if scaled > MAX_SAMPLE_VOLUME { Err(Error::Conversion(ConversionError::VolumeScalingFailed(scaled))) } else { Ok(scaled) }
}

/// A volume-column set-volume byte scaled: its volume (`value - 0x10`) through the table, back
/// in the `10-50` range.
pub open spec fn scaled_volume_column(value: u8, column: ColumnVolume) -> Result<u8, Error> {
    match checked_volume(scaled_of(column, value - 0x10)) {
        Ok(s) => Ok((s + 0x10) as u8),
        Err(e) => Err(e),
    }
}

pub fn scale_volume_from_volume_command(value: u8, column: &ColumnVolume) -> (r: Result<u8, Error>)
    requires
        column_volume_wf(*column),
    ensures
        r == scaled_volume_column(value, *column),
{
    let scaled = column.scaled[value as usize];
    if scaled > MAX_SAMPLE_VOLUME {
        return Err(Error::Conversion(ConversionError::VolumeScalingFailed(scaled)));
    }
    Ok((scaled + VOLUME_COLUMN_SET_VOLUME_DELTA as i32) as u8)
}

/// A new volume-column set-volume byte for a note that triggers the sample.
pub open spec fn new_scaled_volume_column(column: ColumnVolume) -> Result<u8, Error> {
    match checked_volume(column.trigger_scaled) {
        Ok(s) => Ok((s + 0x10) as u8),
        Err(e) => Err(e),
    }
}

pub fn scale_volume_from_volume_command_new(column: &ColumnVolume) -> (r: Result<u8, Error>)
    ensures
        r == new_scaled_volume_column(*column),
{
    let scaled = column.trigger_scaled;
    if scaled > MAX_SAMPLE_VOLUME {
        return Err(Error::Conversion(ConversionError::VolumeScalingFailed(scaled)));
    }
    Ok((scaled + VOLUME_COLUMN_SET_VOLUME_DELTA as i32) as u8)
}

/// A set-channel-volume effect value scaled through the table.
pub open spec fn scaled_effect_value(value: u8, column: ColumnVolume) -> Result<u8, Error> {
    match checked_volume(scaled_of(column, value as int)) {
        Ok(s) => Ok(s as u8),
        Err(e) => Err(e),
    }
}

pub fn scale_volume_from_effect_command(value: u8, column: &ColumnVolume) -> (r: Result<u8, Error>)
    requires
        column_volume_wf(*column),
    ensures
        r == scaled_effect_value(value, *column),
{
    let result = column.scaled[value as usize + 16];
    if result > MAX_SAMPLE_VOLUME {
        return Err(Error::Conversion(ConversionError::VolumeScalingFailed(result)));
    }
    Ok(result as u8)
}

/// A new set-channel-volume effect for a note that triggers the sample.
pub open spec fn new_scaled_effect(column: ColumnVolume) -> Result<(u8, u8), Error> {
    match checked_volume(column.trigger_scaled) {
        Ok(s) => Ok((0x0Cu8, s as u8)),
        Err(e) => Err(e),
    }
}

pub fn scale_volume_from_effect_command_new(column: &ColumnVolume) -> (r: Result<(u8, u8), Error>)
    ensures
        r == new_scaled_effect(*column),
{
    let result = column.trigger_scaled;
    if result > MAX_SAMPLE_VOLUME {
        return Err(Error::Conversion(ConversionError::VolumeScalingFailed(result)));
    }
    Ok((0x0C, result as u8))
}

} // verus!
