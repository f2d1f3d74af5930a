use renoise2mod_core::error::{ConversionError, Error};
use renoise2mod_core::xm_format::commands::{
    global_volume_slide_down, global_volume_slide_up, multi_retrig, pan_slide_left_volume_column,
    pan_slide_right_volume_column, portamento, portamento_up_down, set_global_volume, set_panning_volume_column,
    set_tempo, set_volume_volume_column, transpose_glide_vol_pan_column, transpose_panning_slide_left,
    transpose_panning_slide_right, transpose_portamento_up_vol_pan_column, volume_down_volume_column,
    volume_up_volume_column, xm_portamento_value,
};

#[test]
fn set_tempo_threshold_is_strictly_less_than_020() {
    assert_eq!(set_tempo(0x1F), (0, 0));
    assert_eq!(set_tempo(0x20), (0x0F, 0x20));
}

#[test]
fn xm_portamento_value_passes_through_raw_when_pitch_compat_and_not_ignored() {
    let (num, val) = portamento_up_down(1, 42, 6, false, true).unwrap();
    assert_eq!((num, val), (1, 42));
}

#[test]
fn xm_portamento_value_divides_when_ignored() {
    let (num, val) = portamento_up_down(1, 40, 6, true, true).unwrap();
    assert_eq!(num, 1);
    assert_eq!(val, 8);
}

#[test]
fn xm_portamento_value_refuses_zero_result() {
    assert!(matches!(
        xm_portamento_value(1, 0, false, false),
        Err(Error::Conversion(ConversionError::PortamentoDiscarded))
    ));
    assert_eq!(xm_portamento_value(0, 0, false, false).unwrap(), 0);
    assert_eq!(xm_portamento_value(12, 6, false, false).unwrap(), 2);
}

#[test]
fn multi_retrig_remaps_renoise_volume_table() {
    let (cmd, val) = multi_retrig(0x25);
    assert_eq!(cmd, 0x1B);
    assert_eq!(val, (3 << 4) + 5);
}

#[test]
fn multi_retrig_full_table() {
    assert_eq!(multi_retrig(0x53).1, 0x73);
    assert_eq!(multi_retrig(0x84).1, 0x04);
    assert_eq!(multi_retrig(0xD1).1, 0xF1);
    assert_eq!(multi_retrig(0xF2).1, 0xF2);
}

#[test]
fn set_global_volume_clamps_and_divides_by_three() {
    assert_eq!(set_global_volume(0xC0), (0x10, 0x40));
    assert_eq!(set_global_volume(0xFF), (0x10, 0x40));
}

#[test]
fn global_volume_slides() {
    assert_eq!(global_volume_slide_up(20, 6), (0x11, 0x10));
    assert_eq!(global_volume_slide_down(20, 6), (0x11, 0x01));
    assert_eq!(global_volume_slide_up(0x400, 6), (0x11, 0xF0));
}

#[test]
fn fine_pitch_slide_when_closer() {
    assert_eq!(portamento(1, 1, 6, false, false).unwrap(), (0x0E, 0x11));
    assert_eq!(portamento(2, 40, 6, false, false).unwrap(), (2, 8));
}

#[test]
fn volume_column_bytes() {
    assert_eq!(set_volume_volume_column(0x80), 0x50);
    assert_eq!(set_volume_volume_column(0x00), 0x10);
    assert_eq!(set_panning_volume_column(0x40), 0xC8);
    assert_eq!(set_panning_volume_column(0xFF), 0xCF);
    assert_eq!(volume_up_volume_column(2, 6), 0x98);
    assert_eq!(volume_down_volume_column(3, 6), 0x8C);
    // a slide: (0xA << 4) / 4 = 40, / 5 ticks = 8
    assert_eq!(volume_up_volume_column(0xA, 6), 0x78);
    assert_eq!(volume_down_volume_column(0xA, 6), 0x68);
}

#[test]
fn panning_slides() {
    // min(4, 8) << 4 = 64, / 5 ticks = 12 (truncated)
    assert_eq!(pan_slide_left_volume_column(4, 6), 0xDC);
    assert_eq!(pan_slide_right_volume_column(0xF, 6), 0xEF);
    assert_eq!(transpose_panning_slide_left(2, 6), (0x19, 0x60));
    assert_eq!(transpose_panning_slide_right(2, 6), (0x19, 0x06));
}

#[test]
fn column_glides_and_slides() {
    assert_eq!(transpose_glide_vol_pan_column(0xF, 6, false).unwrap(), (0x03, 0xFF));
    assert_eq!(transpose_glide_vol_pan_column(5, 6, true).unwrap(), (0x03, 16));
    assert_eq!(transpose_portamento_up_vol_pan_column(2, 6, true).unwrap(), (1, 6));
}
