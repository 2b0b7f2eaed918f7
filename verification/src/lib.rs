//! Verified sensor-processing core of a shooting-sports training tool.
//!
//! The library joins a camera stream (blob positions on a paper target) and a
//! microphone stream (RMS volume, shot triggers) in wall-clock time, and
//! reconstructs the impact point of each shot by cubic-spline interpolation
//! across the trigger instant.
//!
//! All quantities are fixed-point integers:
//! - time in milliseconds,
//! - target-space positions in micrometres,
//! - pixel positions in millipixels (thousandths of a pixel).

pub mod audio;
pub mod calib;
pub mod camera;
pub mod controller;
pub mod engine;
pub mod geometry;
pub mod num;
pub mod preview;
pub mod rat;
pub mod spline;
pub mod types;
