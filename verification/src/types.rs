//! Core data model of the sensor pipeline, in fixed-point units.
//!
//! - time: milliseconds since an origin chosen by the caller (monotonic clock),
//! - target-space positions: micrometres relative to the target centre,
//! - pixel positions: millipixels (thousandths of a pixel) in camera frames.

use vstd::prelude::*;

verus! {

/// Usable square side of the paper target, in millimetres.
pub const TARGET_SIZE_MM: i64 = 170;

/// Half the target side, in micrometres: a position is "in target" when both
/// coordinates lie within this bound.
pub const HALF_TARGET_UM: i64 = 85_000;

/// Pixel-to-millimetre ratio of the calibration card geometry: one pixel is
/// 170/254 mm, so a distance of `d` millipixels is `d * 170 / 254` micrometres.
pub const PX_TO_MM_NUM: i64 = 170;

/// Denominator of the pixel-to-millimetre ratio.
pub const PX_TO_MM_DEN: i64 = 254;

/// Side of the square cropped around the calibration point, in millipixels:
/// 1.75 times the target size divided by the pixel pitch
/// (175 * 254 / 100 = 444.5, rounded down to a whole pixel).
pub const CROP_SIDE_MPX: i64 = 444_000;

/// Upper bound accepted for a pixel coordinate, in millipixels (100 000 px).
pub const MAX_COORD_MPX: i64 = 100_000_000;

/// Upper bound accepted for a target-space coordinate magnitude, in
/// micrometres.
pub const MAX_VALUE_UM: i64 = 2_000_000_000;

/// Upper bound accepted for a fine-adjust offset magnitude, in micrometres.
pub const MAX_ADJUST_UM: i64 = 1_000_000_000;

/// Upper bound accepted for a time value, in milliseconds.
pub const MAX_TIME_MS: i64 = 1_000_000_000_000;

/// A point of the aim trace: target-space position in micrometres and time in
/// milliseconds since the current shot's start.
#[derive(Clone, Copy, Debug, PartialEq, Eq, Structural)]
pub struct TracePoint {
    pub x_um: i64,
    pub y_um: i64,
    pub time_ms: i64,
}

impl TracePoint {
    /// Coordinates and time within the accepted ranges.
    pub open spec fn wf(self) -> bool {
        &&& -MAX_VALUE_UM <= self.x_um <= MAX_VALUE_UM
        &&& -MAX_VALUE_UM <= self.y_um <= MAX_VALUE_UM
        &&& 0 <= self.time_ms <= MAX_TIME_MS
    }
}

/// Raw blob-detector output: centre and diameter in millipixels of the frame
/// it was detected on.
#[derive(Clone, Copy, Debug, PartialEq, Eq, Structural)]
pub struct Keypoint {
    pub cx_mpx: i64,
    pub cy_mpx: i64,
    pub diameter_mpx: i64,
}

impl Keypoint {
    /// Coordinates within the accepted frame range.
    pub open spec fn wf(self) -> bool {
        &&& 0 <= self.cx_mpx <= MAX_COORD_MPX
        &&& 0 <= self.cy_mpx <= MAX_COORD_MPX
        &&& 0 <= self.diameter_mpx <= MAX_COORD_MPX
    }
}

/// The pixel position of the aim centre on the paper, learned once per
/// session by calibration.
#[derive(Clone, Copy, Debug, PartialEq, Eq, Structural)]
pub struct CalibrationPoint {
    pub x_mpx: i64,
    pub y_mpx: i64,
}

/// User additive offset applied after coordinate mapping, in micrometres.
#[derive(Clone, Copy, Debug, PartialEq, Eq, Structural)]
pub struct FineAdjust {
    pub dx_um: i64,
    pub dy_um: i64,
}

impl FineAdjust {
    /// Offsets within the accepted range.
    pub open spec fn wf(self) -> bool {
        &&& -MAX_ADJUST_UM <= self.dx_um <= MAX_ADJUST_UM
        &&& -MAX_ADJUST_UM <= self.dy_um <= MAX_ADJUST_UM
    }
}

/// A finished shot as emitted to the UI: the aim trace before the trigger,
/// the interpolated impact point, and the trace after the trigger.
#[derive(Clone, Debug)]
pub struct Shot {
    pub before_trace: Vec<TracePoint>,
    pub shot_point: TracePoint,
    pub after_trace: Vec<TracePoint>,
}

/// Blob-detector thresholds and shape filters. Fractional filter values are
/// in thousandths (700 = 0.70).
#[derive(Clone, Copy, Debug, PartialEq, Eq, Structural)]
pub struct DetectorParams {
    pub min_threshold: u32,
    pub max_threshold: u32,
    pub filter_by_color: bool,
    pub filter_by_convexity: bool,
    pub filter_by_area: bool,
    pub min_area_px2: u32,
    pub max_area_px2: u32,
    pub filter_by_circularity: bool,
    pub min_circularity_milli: u32,
    pub filter_by_inertia: bool,
    pub min_inertia_milli: u32,
}

impl DetectorParams {
    /// The detector configuration used by every worker: user-chosen grey
    /// thresholds, area filter 450..10000 px^2, circularity at least 0.70,
    /// inertia ratio at least 0.85, colour and convexity filters off.
    pub fn with_thresholds(min_threshold: u32, max_threshold: u32) -> (r: DetectorParams)
        ensures
            r == (DetectorParams {
                min_threshold,
                max_threshold,
                filter_by_color: false,
                filter_by_convexity: false,
                filter_by_area: true,
                min_area_px2: 450,
                max_area_px2: 10_000,
                filter_by_circularity: true,
                min_circularity_milli: 700,
                filter_by_inertia: true,
                min_inertia_milli: 850,
            }),
    {
        DetectorParams {
            min_threshold,
            max_threshold,
            filter_by_color: false,
            filter_by_convexity: false,
            filter_by_area: true,
            min_area_px2: 450,
            max_area_px2: 10_000,
            filter_by_circularity: true,
            min_circularity_milli: 700,
            filter_by_inertia: true,
            min_inertia_milli: 850,
        }
    }
}

} // verus!
