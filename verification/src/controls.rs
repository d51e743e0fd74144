//! Standard V4L2 (UVC) control IDs and the white-balance pin sequence.
//!
//! These are the plain UVC controls the Tiny 3 exposes (brightness, WB,
//! exposure, absolute pan/tilt/zoom, focus). Gimbal *positioning* works over
//! these; sleep/wake and AI tracking do not (those go through the vendor
//! protocol in `device.rs`).

use crate::op::{Op, OpView, ops_view};
use vstd::prelude::*;

verus! {

// V4L2 control IDs (linux/v4l2-controls.h).
pub const CID_BRIGHTNESS: u32 = 0x0098_0900;

pub const CID_CONTRAST: u32 = 0x0098_0901;

pub const CID_SATURATION: u32 = 0x0098_0902;

pub const CID_HUE: u32 = 0x0098_0903;

/// white_balance_automatic (bool)
pub const CID_AUTO_WHITE_BALANCE: u32 = 0x0098_090c;

/// red_balance: never written (see [`pin_white_balance`]).
pub const CID_RED_BALANCE: u32 = 0x0098_090e;

/// blue_balance: never written (see [`pin_white_balance`]).
pub const CID_BLUE_BALANCE: u32 = 0x0098_090f;

pub const CID_GAIN: u32 = 0x0098_0913;

pub const CID_POWER_LINE_FREQUENCY: u32 = 0x0098_0918;

pub const CID_WHITE_BALANCE_TEMPERATURE: u32 = 0x0098_091a;

pub const CID_SHARPNESS: u32 = 0x0098_091b;

pub const CID_BACKLIGHT_COMPENSATION: u32 = 0x0098_091c;

/// menu: 0 Auto, 1 Manual, 3 Aperture-priority
pub const CID_EXPOSURE_AUTO: u32 = 0x009a_0901;

pub const CID_EXPOSURE_ABSOLUTE: u32 = 0x009a_0902;

/// ±468000, step 3600 (1/3600°)
pub const CID_PAN_ABSOLUTE: u32 = 0x009a_0908;

/// ±324000, step 3600
pub const CID_TILT_ABSOLUTE: u32 = 0x009a_0909;

pub const CID_FOCUS_ABSOLUTE: u32 = 0x009a_090a;

/// focus_automatic_continuous (bool)
pub const CID_FOCUS_AUTO: u32 = 0x009a_090c;

/// 0..100
pub const CID_ZOOM_ABSOLUTE: u32 = 0x009a_090d;

// EXPOSURE_AUTO menu values.
pub const EXPOSURE_AUTO_MODE: i32 = 0;

pub const EXPOSURE_MANUAL_MODE: i32 = 1;

/// Gimbal pan range, in arc-seconds (V4L2 native units): +130°.
pub const PAN_MAX: i32 = 468_000;

/// Gimbal tilt range, in arc-seconds: +90°.
pub const TILT_MAX: i32 = 324_000;

/// Arc-seconds per degree.
pub const ASEC_PER_DEG: i32 = 3600;

// White-balance temperature bounds on this firmware.
pub const WB_TEMP_MIN: i32 = 2000;

pub const WB_TEMP_MAX: i32 = 10000;

/// The pause between switching auto white balance off and writing the
/// temperature, in milliseconds.
pub const WB_SETTLE_MILLIS: u64 = 300;

/// The firmware-safe white-balance order: the temperature control is the last
/// operation, and neither red nor blue balance is written anywhere.
pub open spec fn wb_temperature_written_last(ops: Seq<OpView>, temp: i32) -> bool {
    &&& ops.len() > 0
    &&& ops.last() == (OpView::SetCtrl { id: CID_WHITE_BALANCE_TEMPERATURE, value: temp })
    &&& forall|i: int|
        0 <= i < ops.len() ==> !(#[trigger] ops[i] matches OpView::SetCtrl { id, .. } && (id
            == CID_RED_BALANCE || id == CID_BLUE_BALANCE))
}

/// Pin manual white balance at `temp_kelvin`, in the ONLY safe order for this
/// firmware.
///
/// FIRMWARE QUIRK — last-written-control-wins white balance: the firmware
/// treats whichever WB control was written most recently as the active source.
/// So we write `white_balance_automatic=0`, pause, then
/// `white_balance_temperature` LAST, with nothing after it. Writing
/// red_balance/blue_balance after temperature would make 127/127 literal
/// channel gains → a saturated neon-green image. We never touch red/blue
/// balance.
pub fn pin_white_balance(temp_kelvin: i32) -> (ops: Vec<Op>)
    ensures
        ops_view(ops@) == seq![
            OpView::SetCtrl { id: CID_AUTO_WHITE_BALANCE, value: 0 },
            OpView::Pause { millis: WB_SETTLE_MILLIS },
            OpView::SetCtrl { id: CID_WHITE_BALANCE_TEMPERATURE, value: temp_kelvin },
        ],
        wb_temperature_written_last(ops_view(ops@), temp_kelvin),
{
    let ops = vec![
        Op::SetCtrl { id: CID_AUTO_WHITE_BALANCE, value: 0 },
        Op::Pause { millis: WB_SETTLE_MILLIS },
        Op::SetCtrl { id: CID_WHITE_BALANCE_TEMPERATURE, value: temp_kelvin },
    ];
    assert(ops_view(ops@) =~= seq![
        OpView::SetCtrl { id: CID_AUTO_WHITE_BALANCE, value: 0 },
        OpView::Pause { millis: WB_SETTLE_MILLIS },
        OpView::SetCtrl { id: CID_WHITE_BALANCE_TEMPERATURE, value: temp_kelvin },
    ]);
    ops
}

/// Whether a read of `white_balance_automatic` means auto white balance is on.
pub fn is_auto_wb(value: i32) -> (auto: bool)
    ensures
        auto == (value != 0),
{
    value != 0
}

/// Restore the always-safe watchable fallback: auto white balance on.
pub fn white_balance_auto() -> (ops: Vec<Op>)
    ensures
        ops_view(ops@) == seq![OpView::SetCtrl { id: CID_AUTO_WHITE_BALANCE, value: 1 }],
{
    let ops = vec![Op::SetCtrl { id: CID_AUTO_WHITE_BALANCE, value: 1 }];
    assert(ops_view(ops@) =~= seq![OpView::SetCtrl { id: CID_AUTO_WHITE_BALANCE, value: 1 }]);
    ops
}

/// Clamp an arc-second value for a pan/tilt control to `-max..=max`.
pub fn clamp_asec(raw: i32, max: i32) -> (v: i32)
    requires
        max >= 0,
    ensures
        v == (if raw < -max {
            -max
        } else if raw > max {
            max as int
        } else {
            raw as int
        }),
{
    if raw < -max {
        -max
    } else if raw > max {
        max
    } else {
        raw
    }
}

} // verus!
