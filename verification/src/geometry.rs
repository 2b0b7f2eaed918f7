//! Target geometry: cropping a frame around the calibration point, and
//! mapping a detected pixel position into target space.

use vstd::prelude::*;

use crate::types::{
    CalibrationPoint, FineAdjust, Keypoint, TracePoint, CROP_SIDE_MPX, HALF_TARGET_UM,
    MAX_ADJUST_UM, MAX_COORD_MPX, MAX_TIME_MS, PX_TO_MM_DEN, PX_TO_MM_NUM,
};

verus! {

/// A rectangle within a camera frame, in millipixels.
#[derive(Clone, Copy, Debug, PartialEq, Eq, Structural)]
pub struct CropRect {
    pub x_mpx: i64,
    pub y_mpx: i64,
    pub w_mpx: i64,
    pub h_mpx: i64,
}

/// A distance of `d` millipixels expressed in micrometres, rounded towards
/// zero: `d * 170 / 254` on the magnitude, the sign kept.
pub open spec fn px_to_um(d: int) -> int {
    if d >= 0 {
        (d * PX_TO_MM_NUM as int) / PX_TO_MM_DEN as int
    } else {
        -(((-d) * PX_TO_MM_NUM as int) / PX_TO_MM_DEN as int)
    }
}

/// Converts a millipixel distance to micrometres, rounding towards zero.
pub fn px_dist_to_um(d: i64) -> (r: i64)
    requires
        -(2 * MAX_COORD_MPX) <= d <= 2 * MAX_COORD_MPX,
    ensures
        r == px_to_um(d as int),
        -(2 * MAX_COORD_MPX) <= r <= 2 * MAX_COORD_MPX,
{
    if d >= 0 {
        (d * PX_TO_MM_NUM) / PX_TO_MM_DEN
    } else {
        let m: i64 = -d;
        -((m * PX_TO_MM_NUM) / PX_TO_MM_DEN)
    }
}

/// The centred square of side `CROP_SIDE_MPX` around the calibration point,
/// clipped to the frame bounds.
///
/// `crop_rect` mirrors the shot pipeline's framing step: the origin is the
/// calibration point minus half the crop side, clamped at zero, and the size
/// is cut down where the square would leave the frame.
pub fn crop_rect(frame_w_mpx: i64, frame_h_mpx: i64, calibrate_point: CalibrationPoint) -> (r:
    CropRect)
    requires
        0 <= frame_w_mpx <= MAX_COORD_MPX,
        0 <= frame_h_mpx <= MAX_COORD_MPX,
        0 <= calibrate_point.x_mpx <= frame_w_mpx,
        0 <= calibrate_point.y_mpx <= frame_h_mpx,
    ensures
        r.x_mpx == if calibrate_point.x_mpx - CROP_SIDE_MPX / 2 >= 0 {
            calibrate_point.x_mpx - CROP_SIDE_MPX / 2
        } else {
            0
        },
        r.y_mpx == if calibrate_point.y_mpx - CROP_SIDE_MPX / 2 >= 0 {
            calibrate_point.y_mpx - CROP_SIDE_MPX / 2
        } else {
            0
        },
        r.w_mpx == if r.x_mpx + CROP_SIDE_MPX > frame_w_mpx {
            frame_w_mpx - r.x_mpx
        } else {
            CROP_SIDE_MPX as int
        },
        r.h_mpx == if r.y_mpx + CROP_SIDE_MPX > frame_h_mpx {
            frame_h_mpx - r.y_mpx
        } else {
            CROP_SIDE_MPX as int
        },
        0 <= r.x_mpx <= frame_w_mpx,
        0 <= r.y_mpx <= frame_h_mpx,
        0 <= r.w_mpx <= CROP_SIDE_MPX,
        0 <= r.h_mpx <= CROP_SIDE_MPX,
        r.x_mpx + r.w_mpx <= frame_w_mpx,
        r.y_mpx + r.h_mpx <= frame_h_mpx,
{
    let half: i64 = CROP_SIDE_MPX / 2;
    let x: i64 = if calibrate_point.x_mpx - half >= 0 {
        calibrate_point.x_mpx - half
    } else {
        0
    };
    let y: i64 = if calibrate_point.y_mpx - half >= 0 {
        calibrate_point.y_mpx - half
    } else {
        0
    };
    let w: i64 = if x + CROP_SIDE_MPX > frame_w_mpx {
        frame_w_mpx - x
    } else {
        CROP_SIDE_MPX
    };
    let h: i64 = if y + CROP_SIDE_MPX > frame_h_mpx {
        frame_h_mpx - y
    } else {
        CROP_SIDE_MPX
    };
    CropRect { x_mpx: x, y_mpx: y, w_mpx: w, h_mpx: h }
}

/// Target-space x of a keypoint detected on a crop of height `crop_h_mpx`:
/// the vertical pixel offset from the crop centre, flipped, scaled to
/// micrometres, plus the fine adjust.
pub open spec fn target_x_um(kp: Keypoint, crop_h_mpx: int, fine_adjust: FineAdjust) -> int {
    px_to_um(crop_h_mpx / 2 - kp.cy_mpx) + fine_adjust.dx_um
}

/// Target-space y of a keypoint detected on a crop of width `crop_w_mpx`:
/// the horizontal pixel offset from the crop centre, scaled to micrometres,
/// plus the fine adjust.
pub open spec fn target_y_um(kp: Keypoint, crop_w_mpx: int, fine_adjust: FineAdjust) -> int {
    px_to_um(kp.cx_mpx - crop_w_mpx / 2) + fine_adjust.dy_um
}

/// Maps a keypoint detected on the cropped frame to a target-space trace
/// point. The 90-degree rotation and vertical flip compensate the camera
/// orientation: frame rows become target x, frame columns become target y.
pub fn map_to_target(
    kp: &Keypoint,
    crop_w_mpx: i64,
    crop_h_mpx: i64,
    fine_adjust: &FineAdjust,
    time_ms: i64,
) -> (r: TracePoint)
    requires
        kp.wf(),
        0 <= crop_w_mpx <= MAX_COORD_MPX,
        0 <= crop_h_mpx <= MAX_COORD_MPX,
        fine_adjust.wf(),
        0 <= time_ms <= MAX_TIME_MS,
    ensures
        r.x_um == target_x_um(*kp, crop_h_mpx as int, *fine_adjust),
        r.y_um == target_y_um(*kp, crop_w_mpx as int, *fine_adjust),
        r.time_ms == time_ms,
        r.wf(),
{
    let x_um: i64 = px_dist_to_um(crop_h_mpx / 2 - kp.cy_mpx) + fine_adjust.dx_um;
    let y_um: i64 = px_dist_to_um(kp.cx_mpx - crop_w_mpx / 2) + fine_adjust.dy_um;
    TracePoint { x_um, y_um, time_ms }
}

/// The position lies within the target square: both coordinates within
/// half the target size of the centre.
pub open spec fn in_target(p: TracePoint) -> bool {
    &&& -HALF_TARGET_UM <= p.x_um <= HALF_TARGET_UM
    &&& -HALF_TARGET_UM <= p.y_um <= HALF_TARGET_UM
}

/// Whether the position lies within the target square.
pub fn point_in_target(p: &TracePoint) -> (r: bool)
    ensures
        r == in_target(*p),
{
    -HALF_TARGET_UM <= p.x_um && p.x_um <= HALF_TARGET_UM && -HALF_TARGET_UM <= p.y_um && p.y_um
        <= HALF_TARGET_UM
}

} // verus!
