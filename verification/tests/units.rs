use stasys::audio::{rms_milli, TriggerGate};
use stasys::calib::{select_calibration_point, CalibOutcome, CalibSample};
use stasys::camera::{capture_source, contains_sub, framerate_for_label, label_is_file, CaptureSource, HostOs};
use stasys::controller::Controller;
use stasys::engine::{ShotConfig, ShotEngine, ShotEvent, ShotPhase};
use stasys::geometry::{crop_rect, map_to_target, point_in_target, px_dist_to_um};
use stasys::num::isqrt;
use stasys::preview::{apply_threshold_updates, encode_preview_frame, preview_due, rgb_to_rgba};
use stasys::rat::Rat;
use stasys::spline::{eval_at, natural_moments, spline_impact};
use stasys::types::{
    CalibrationPoint, DetectorParams, FineAdjust, Keypoint, TracePoint,
};

#[test]
fn isqrt_exact_values() {
    assert_eq!(isqrt(0), 0);
    assert_eq!(isqrt(1), 1);
    assert_eq!(isqrt(15), 3);
    assert_eq!(isqrt(16), 4);
    assert_eq!(isqrt(12_500_000), 3_535);
    assert_eq!(isqrt(u64::MAX), 4_294_967_295);
}

#[test]
fn rms_of_small_buffer() {
    // samples 3 and 4: mean square 12.5, RMS 3.5355...
    let samples: Vec<i16> = vec![3, 4];
    assert_eq!(rms_milli(&samples), 3_535);
    // a constant buffer has its own amplitude
    let constant: Vec<i16> = vec![-1000; 8];
    assert_eq!(rms_milli(&constant), 1_000_000);
}

#[test]
fn trigger_gate_threshold_is_strict() {
    let mut gate = TriggerGate::new();
    assert!(!gate.observe(0, 1_000, 1_000));
    assert!(gate.observe(1, 1_001, 1_000));
}

#[test]
fn crop_rect_centred_and_clipped() {
    // a 1280x720 frame with the calibration point at its centre
    let r = crop_rect(1_280_000, 720_000, CalibrationPoint { x_mpx: 640_000, y_mpx: 360_000 });
    assert_eq!(r.x_mpx, 418_000);
    assert_eq!(r.y_mpx, 138_000);
    assert_eq!(r.w_mpx, 444_000);
    assert_eq!(r.h_mpx, 444_000);
    // a calibration point near the corner clips the rectangle
    let c = crop_rect(1_280_000, 720_000, CalibrationPoint { x_mpx: 10_000, y_mpx: 700_000 });
    assert_eq!(c.x_mpx, 0);
    assert_eq!(c.w_mpx, 444_000);
    assert_eq!(c.y_mpx, 478_000);
    assert_eq!(c.h_mpx, 242_000);
}

#[test]
fn map_to_target_rotates_and_scales() {
    // 12 px above the crop centre: x = 12 px * 170/254 mm
    let kp = Keypoint { cx_mpx: 222_000, cy_mpx: 210_000, diameter_mpx: 10_000 };
    let fa = FineAdjust { dx_um: 500, dy_um: -300 };
    let p = map_to_target(&kp, 444_000, 444_000, &fa, 42);
    assert_eq!(p.x_um, 8_031 + 500);
    assert_eq!(p.y_um, 0 - 300);
    assert_eq!(p.time_ms, 42);
}

#[test]
fn px_to_um_truncates_toward_zero() {
    assert_eq!(px_dist_to_um(12_000), 8_031);
    assert_eq!(px_dist_to_um(-12_000), -8_031);
    assert_eq!(px_dist_to_um(0), 0);
}

#[test]
fn in_target_boundary() {
    let inside = TracePoint { x_um: 85_000, y_um: -85_000, time_ms: 0 };
    let outside = TracePoint { x_um: 85_001, y_um: 0, time_ms: 0 };
    assert!(point_in_target(&inside));
    assert!(!point_in_target(&outside));
}

#[test]
fn usb_label_selects_high_framerate() {
    assert_eq!(framerate_for_label(b"HD USB Camera"), 120);
    assert_eq!(framerate_for_label(b"FaceTime HD"), 30);
    assert_eq!(framerate_for_label(b"USB"), 120);
    assert_eq!(framerate_for_label(b"usb"), 30);
}

#[test]
fn file_labels_contain_path_separators() {
    assert!(label_is_file(b"/tmp/shot.mp4"));
    assert!(label_is_file(b"C:\\clips\\shot.mp4"));
    assert!(!label_is_file(b"Integrated Camera"));
}

#[test]
fn capture_source_by_platform_and_label() {
    assert_eq!(
        capture_source(HostOs::MacOs, b"FaceTime HD"),
        Some(CaptureSource::Format("avfoundation"))
    );
    assert_eq!(
        capture_source(HostOs::Windows, b"HD USB Camera"),
        Some(CaptureSource::Format("dshow"))
    );
    assert_eq!(capture_source(HostOs::Other, b"cam"), None);
    assert_eq!(
        capture_source(HostOs::Other, b"/tmp/shot.mp4"),
        Some(CaptureSource::AutoDetect)
    );
}

#[test]
fn substring_search() {
    assert!(contains_sub(b"abcdef", b"cde"));
    assert!(contains_sub(b"abc", b""));
    assert!(!contains_sub(b"abc", b"abcd"));
    assert!(!contains_sub(b"aab", b"ab8"));
}

#[test]
fn preview_rate_limit() {
    assert!(preview_due(0, 0, 0));
    assert!(!preview_due(1, 100, 129));
    assert!(preview_due(1, 100, 130));
}

#[test]
fn threshold_updates_drain_to_newest() {
    let params = DetectorParams::with_thresholds(10, 200);
    let (same, rebuild) = apply_threshold_updates(&params, &Vec::new());
    assert_eq!(same, params);
    assert!(!rebuild);
    let pending = vec![(20u32, 210u32), (30u32, 220u32)];
    let (updated, rebuild2) = apply_threshold_updates(&params, &pending);
    assert!(rebuild2);
    assert_eq!(updated.min_threshold, 30);
    assert_eq!(updated.max_threshold, 220);
    assert_eq!(updated.min_area_px2, 450);
}

#[test]
fn detector_defaults() {
    let p = DetectorParams::with_thresholds(17, 211);
    assert_eq!(p.min_threshold, 17);
    assert_eq!(p.max_threshold, 211);
    assert!(!p.filter_by_color);
    assert!(!p.filter_by_convexity);
    assert!(p.filter_by_area);
    assert_eq!(p.min_area_px2, 450);
    assert_eq!(p.max_area_px2, 10_000);
    assert!(p.filter_by_circularity);
    assert_eq!(p.min_circularity_milli, 700);
    assert!(p.filter_by_inertia);
    assert_eq!(p.min_inertia_milli, 850);
}

#[test]
fn rgba_expansion() {
    let rgb: Vec<u8> = vec![1, 2, 3, 4, 5, 6];
    assert_eq!(rgb_to_rgba(&rgb), vec![1, 2, 3, 255, 4, 5, 6, 255]);
}

#[test]
fn preview_frame_encoding() {
    // one black pixel becomes RGBA 00 00 00 FF, base64 "AAAA/w=="
    let rgb: Vec<u8> = vec![0, 0, 0];
    assert_eq!(encode_preview_frame(&rgb), "AAAA/w==");
    let empty: Vec<u8> = Vec::new();
    assert_eq!(encode_preview_frame(&empty), "");
}

#[test]
fn calibration_outcome_messages() {
    assert_eq!(CalibOutcome::Success { x_mpx: 0, y_mpx: 0 }.error_message(), "");
    assert_eq!(
        CalibOutcome::Timeout.error_message(),
        "Calibrating for more than 2min - timeout"
    );
}

#[test]
fn selection_picks_centroid_of_spanning_window() {
    // four identical samples spanning just over a second, and an older
    // one that closes the window
    let trace: Vec<CalibSample> = vec![
        CalibSample { x_mpx: 100_000, y_mpx: 200_000, time_ms: 0 },
        CalibSample { x_mpx: 100_000, y_mpx: 200_000, time_ms: 300 },
        CalibSample { x_mpx: 100_000, y_mpx: 200_000, time_ms: 600 },
        CalibSample { x_mpx: 100_000, y_mpx: 200_000, time_ms: 900 },
        CalibSample { x_mpx: 100_000, y_mpx: 200_000, time_ms: 1_050 },
    ];
    assert_eq!(select_calibration_point(&trace), Some((100_000, 200_000)));
}

#[test]
fn selection_needs_a_full_second() {
    let trace: Vec<CalibSample> = vec![
        CalibSample { x_mpx: 1, y_mpx: 2, time_ms: 0 },
        CalibSample { x_mpx: 1, y_mpx: 2, time_ms: 200 },
        CalibSample { x_mpx: 1, y_mpx: 2, time_ms: 400 },
    ];
    assert_eq!(select_calibration_point(&trace), None);
}

#[test]
fn selection_prefers_steadier_window() {
    // two candidate windows; the newer one is jittery, the older one
    // steady, so the steady centroid wins
    let mut trace: Vec<CalibSample> = Vec::new();
    // older, steady window around (50, 50) px
    for i in 0..11i64 {
        trace.push(CalibSample { x_mpx: 50_000, y_mpx: 50_000, time_ms: i * 100 });
    }
    // a gap sample that closes the older bucket when scanning backwards
    trace.push(CalibSample { x_mpx: 50_000, y_mpx: 50_000, time_ms: 1_060 });
    // newer, jittery window around (300, 300) px
    for i in 0..11i64 {
        let jitter = (i % 2) * 40_000 - 20_000;
        trace.push(CalibSample {
            x_mpx: 300_000 + jitter,
            y_mpx: 300_000 - jitter,
            time_ms: 1_200 + i * 100,
        });
    }
    trace.push(CalibSample { x_mpx: 300_000, y_mpx: 300_000, time_ms: 2_260 });
    let selected = select_calibration_point(&trace).expect("a window exists");
    assert_eq!(selected, (50_000, 50_000));
}

#[test]
fn controller_lifecycle() {
    let mut c = Controller::new();
    c.settings_choose_camera(1, 2);
    assert_eq!(c.camera_worker, Some(1));
    assert_eq!(c.threshs_channel, Some(2));
    assert!(c.settings_threshs_changed());
    let stopped = c.settings_close_camera();
    assert_eq!(stopped, Some(1));
    assert_eq!(c, Controller::new());
    assert!(!c.settings_threshs_changed());
    // closing again is a no-op
    assert_eq!(c.settings_close_camera(), None);

    c.start_calib_video(3, 4);
    assert_eq!(c.trigger_channel, Some(4));
    let trigger = c.start_audio(5);
    assert_eq!(trigger, Some(4));
    assert_eq!(c.trigger_channel, None);
    let (cam, mic) = c.stop_webcam_and_mic();
    assert_eq!(cam, Some(3));
    assert_eq!(mic, Some(5));
    assert_eq!(c.camera_worker, None);
    assert_eq!(c.mic_worker, None);

    c.settings_choose_mic(6);
    assert_eq!(c.mic_worker, Some(6));
    assert_eq!(c.settings_close_mic(), Some(6));
    assert_eq!(c.mic_worker, None);
}

#[test]
fn spline_reproduces_knots() {
    let ts: [i64; 6] = [0, 10, 25, 30, 47, 60];
    let ys: [i64; 6] = [0, 10_000, -5_000, 300, 42, 9];
    let ms = natural_moments(&ts, &ys).expect("solver succeeds");
    for k in 0..6 {
        assert_eq!(eval_at(&ts, &ys, &ms, ts[k]), Some(ys[k]));
    }
}

#[test]
fn spline_is_exact_on_linear_data() {
    let ts: [i64; 6] = [0, 10, 20, 30, 40, 50];
    let ys: [i64; 6] = [0, 20, 40, 60, 80, 100];
    let ms = natural_moments(&ts, &ys).expect("solver succeeds");
    assert_eq!(eval_at(&ts, &ys, &ms, 25), Some(50));
    assert_eq!(eval_at(&ts, &ys, &ms, 13), Some(26));
}

#[test]
fn spline_impact_on_linear_motion() {
    let before: Vec<TracePoint> = vec![
        TracePoint { x_um: 0, y_um: 0, time_ms: 0 },
        TracePoint { x_um: 1_000, y_um: -100, time_ms: 10 },
        TracePoint { x_um: 2_000, y_um: -200, time_ms: 20 },
    ];
    let after: Vec<TracePoint> = vec![
        TracePoint { x_um: 3_000, y_um: -300, time_ms: 30 },
        TracePoint { x_um: 4_000, y_um: -400, time_ms: 40 },
        TracePoint { x_um: 5_000, y_um: -500, time_ms: 50 },
    ];
    let p = spline_impact(&before, &after, 25).expect("interpolation succeeds");
    assert_eq!(p.x_um, 2_500);
    assert_eq!(p.y_um, -250);
    assert_eq!(p.time_ms, 25);
}

#[test]
fn spline_impact_needs_increasing_times() {
    let flat: Vec<TracePoint> = vec![
        TracePoint { x_um: 0, y_um: 0, time_ms: 5 },
        TracePoint { x_um: 0, y_um: 0, time_ms: 5 },
        TracePoint { x_um: 0, y_um: 0, time_ms: 5 },
    ];
    let after: Vec<TracePoint> = vec![
        TracePoint { x_um: 0, y_um: 0, time_ms: 6 },
        TracePoint { x_um: 0, y_um: 0, time_ms: 7 },
        TracePoint { x_um: 0, y_um: 0, time_ms: 8 },
    ];
    assert!(spline_impact(&flat, &after, 5).is_none());
}

#[test]
fn rational_arithmetic_is_exact() {
    let half = Rat::from_frac(1, 2).unwrap();
    let third = Rat::from_frac(2, 6).unwrap();
    assert_eq!(third.num, 1);
    assert_eq!(third.den, 3);
    let sum = half.add(third).unwrap();
    assert_eq!(sum.num, 5);
    assert_eq!(sum.den, 6);
    let diff = half.sub(third).unwrap();
    assert_eq!(diff.num, 1);
    assert_eq!(diff.den, 6);
    let prod = half.mul(third).unwrap();
    assert_eq!(prod.num, 1);
    assert_eq!(prod.den, 6);
    let quot = half.div(third).unwrap();
    assert_eq!(quot.num, 3);
    assert_eq!(quot.den, 2);
    assert_eq!(quot.floor(), 1);
    let neg = Rat::from_frac(-7, 2).unwrap();
    assert_eq!(neg.floor(), -4);
    assert_eq!(Rat::zero().floor(), 0);
}

#[test]
fn engine_starts_immediately_without_up_down() {
    let cfg = ShotConfig {
        calibrate_point: CalibrationPoint { x_mpx: 640_000, y_mpx: 360_000 },
        fine_adjust: FineAdjust { dx_um: 0, dy_um: 0 },
        up_down: false,
    };
    let mut engine = ShotEngine::new(0);
    let kps = vec![Keypoint { cx_mpx: 222_000, cy_mpx: 222_000, diameter_mpx: 10_000 }];
    let events = engine.step(&cfg, 8, 444_000, 444_000, &kps, None);
    assert_eq!(engine.phase, ShotPhase::Running);
    assert!(matches!(events[0], ShotEvent::ClearTrace));
    let events2 = engine.step(&cfg, 16, 444_000, 444_000, &kps, None);
    assert!(matches!(events2[0], ShotEvent::AddBefore(_)));
}
