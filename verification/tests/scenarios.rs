use stasys::calib::{CalibOutcome, CalibStep, Calibrator};
use stasys::engine::{ShotConfig, ShotEngine, ShotEvent, ShotPhase};
use stasys::audio::TriggerGate;
use stasys::types::{CalibrationPoint, FineAdjust, Keypoint};

const CROP_W: i64 = 444_000;
const CROP_H: i64 = 444_000;

/// A keypoint on the crop that maps to the given target position
/// (micrometres): target x comes from the row offset, target y from the
/// column offset, each scaled by 254/170.
fn kp_at_target(x_um: i64, y_um: i64) -> Keypoint {
    let cx = CROP_W / 2 + y_um * 254 / 170;
    let cy = CROP_H / 2 - x_um * 254 / 170;
    Keypoint { cx_mpx: cx, cy_mpx: cy, diameter_mpx: 20_000 }
}

fn frame_time(i: i64) -> i64 {
    i * 1000 / 120
}

#[test]
fn calibration_happy_path() {
    // 250 frames at 120 FPS; the blob jitters within +-2 px of (640, 360)
    // for the first second, then moves away linearly; trigger at 1.05 s.
    let mut calib = Calibrator::new(0);
    let mut outcome = None;
    for i in 0..250i64 {
        let t = frame_time(i);
        let (cx, cy) = if t <= 1000 {
            let jx = (i * 37 % 5 - 2) * 1000;
            let jy = (i * 53 % 5 - 2) * 1000;
            (640_000 + jx, 360_000 + jy)
        } else {
            (640_000 + (t - 1000) * 300, 360_000 + (t - 1000) * 300)
        };
        let kps = vec![Keypoint { cx_mpx: cx, cy_mpx: cy, diameter_mpx: 20_000 }];
        let trigger = if t >= 1050 { Some(t) } else { None };
        match calib.step(t, &kps, trigger) {
            CalibStep::Continue => {}
            CalibStep::Finished(o) => {
                outcome = Some(o);
                break;
            }
        }
    }
    match outcome {
        Some(CalibOutcome::Success { x_mpx, y_mpx }) => {
            assert!((x_mpx - 640_000).abs() <= 2_000, "x {}", x_mpx);
            assert!((y_mpx - 360_000).abs() <= 2_000, "y {}", y_mpx);
        }
        other => panic!("expected success, got {:?}", other),
    }
}

#[test]
fn calibration_timeout_no_target() {
    // no blob for 61 s: the run fails with the one-minute message
    let mut calib = Calibrator::new(0);
    let empty: Vec<Keypoint> = Vec::new();
    let mut outcome = None;
    let mut t = 0i64;
    while t <= 61_000 {
        match calib.step(t, &empty, None) {
            CalibStep::Continue => {}
            CalibStep::Finished(o) => {
                outcome = Some((t, o));
                break;
            }
        }
        t += 500;
    }
    let (t_fin, o) = outcome.expect("calibration should have failed");
    assert!(t_fin >= 60_000);
    assert_eq!(o, CalibOutcome::NotDetected);
    assert_eq!(o.error_message(), "Target was not detected for 1min");
    assert!(!o.is_success());
}

#[test]
fn calibration_shot_too_quickly() {
    // fire at 0.3 s after only 30 frames of aim: no one-second window
    let mut calib = Calibrator::new(0);
    let mut outcome = None;
    for i in 0..40i64 {
        let t = frame_time(i);
        let kps = vec![Keypoint { cx_mpx: 640_000, cy_mpx: 360_000, diameter_mpx: 20_000 }];
        let trigger = if t >= 300 { Some(t) } else { None };
        match calib.step(t, &kps, trigger) {
            CalibStep::Continue => {}
            CalibStep::Finished(o) => {
                outcome = Some(o);
                break;
            }
        }
    }
    let o = outcome.expect("calibration should have ended");
    assert_eq!(o, CalibOutcome::TooQuick);
    assert_eq!(o.error_message(), "Shot too quickly");
}

fn shot_config() -> ShotConfig {
    ShotConfig {
        calibrate_point: CalibrationPoint { x_mpx: 640_000, y_mpx: 360_000 },
        fine_adjust: FineAdjust { dx_um: 0, dy_um: 0 },
        up_down: true,
    }
}

#[test]
fn shot_happy_path() {
    // the aim descends from +120 mm past the target edge, steadies near
    // (-2, -1) mm, the trigger fires, and the shot closes about a second
    // later
    let cfg = shot_config();
    let mut engine = ShotEngine::new(0);
    let descent = [120_000i64, 90_000, 55_000, 22_000, -10_000];
    let mut all_events: Vec<ShotEvent> = Vec::new();
    let mut finished = None;
    let mut frame: i64 = 1;
    while frame < 200 {
        let t = frame_time(frame);
        let y = if (frame as usize) <= descent.len() {
            descent[(frame - 1) as usize]
        } else {
            -1_000
        };
        let x = -2_000i64;
        let kps = vec![kp_at_target(x, y)];
        let trigger = if frame == 22 { Some(t - 2) } else { None };
        let events = engine.step(&cfg, t, CROP_W, CROP_H, &kps, trigger);
        for e in events {
            if let ShotEvent::ShotFinished(s) = &e {
                finished = Some(s.clone());
            }
            all_events.push(e);
        }
        if finished.is_some() {
            break;
        }
        frame += 1;
    }
    let shot = finished.expect("shot should have finished");

    // exactly one clear_trace, at the arming descent
    let clears = all_events
        .iter()
        .filter(|e| matches!(e, ShotEvent::ClearTrace))
        .count();
    assert_eq!(clears, 1);

    // one add_shot, whose position lies in the steady region
    let shots: Vec<_> = all_events
        .iter()
        .filter_map(|e| match e {
            ShotEvent::AddShot(p) => Some(*p),
            _ => None,
        })
        .collect();
    assert_eq!(shots.len(), 1);
    let sp = shots[0];
    assert!((sp.x_um - -2_000).abs() <= 1_000, "x {}", sp.x_um);
    assert!((sp.y_um - -1_000).abs() <= 1_000, "y {}", sp.y_um);

    // the add_before count between clear_trace and add_shot is one more
    // than the finished shot's before-trace length
    let mut count_before = 0usize;
    for e in &all_events {
        match e {
            ShotEvent::ClearTrace => count_before = 0,
            ShotEvent::AddBefore(_) => count_before += 1,
            ShotEvent::AddShot(_) => break,
            _ => {}
        }
    }
    assert_eq!(count_before, shot.before_trace.len() + 1);

    // every before point is at or before the shot point, every after
    // point at or after it
    for p in &shot.before_trace {
        assert!(p.time_ms <= shot.shot_point.time_ms);
    }
    for q in &shot.after_trace {
        assert!(q.time_ms >= shot.shot_point.time_ms);
    }

    // the shot closed about a second after the shot point
    assert!(shot.shot_point.time_ms <= frame_time(23));
}

#[test]
fn shot_reset_on_lost_target() {
    // once running, dropping all blob detections for 2.5 s clears the
    // trace and returns the engine to idle without a finished shot
    let cfg = shot_config();
    let mut engine = ShotEngine::new(0);
    let descent = [120_000i64, 90_000, 55_000];
    for frame in 1..=20i64 {
        let t = frame_time(frame);
        let y = if (frame as usize) <= descent.len() {
            descent[(frame - 1) as usize]
        } else {
            -1_000
        };
        let kps = vec![kp_at_target(-2_000, y)];
        let events = engine.step(&cfg, t, CROP_W, CROP_H, &kps, None);
        for e in &events {
            assert!(!matches!(e, ShotEvent::ShotFinished(_)));
        }
    }
    assert_eq!(engine.phase, ShotPhase::Running);
    // no detections for 2.5 s
    let empty: Vec<Keypoint> = Vec::new();
    let mut saw_clear = false;
    let mut t = frame_time(21);
    while t <= frame_time(21) + 2_500 {
        let events = engine.step(&cfg, t, CROP_W, CROP_H, &empty, None);
        for e in &events {
            assert!(!matches!(e, ShotEvent::ShotFinished(_)));
            if matches!(e, ShotEvent::ClearTrace) {
                saw_clear = true;
            }
        }
        t += 100;
    }
    assert!(saw_clear);
    assert_eq!(engine.phase, ShotPhase::Idle);
}

#[test]
fn trigger_debounce_one_second_apart() {
    // two above-threshold windows one second apart forward exactly one
    // trigger
    let mut gate = TriggerGate::new();
    let fired_first = gate.observe(10_000, 5_000, 1_000);
    let fired_second = gate.observe(11_000, 5_000, 1_000);
    assert!(fired_first);
    assert!(!fired_second);
    // after the five-second lockout a new trigger passes again
    let fired_third = gate.observe(15_500, 5_000, 1_000);
    assert!(fired_third);
}

#[test]
fn two_shots_have_clear_between_finishes() {
    // two complete shots in a row: a clear_trace separates the two
    // shot_finished events
    let cfg = shot_config();
    let mut engine = ShotEngine::new(0);
    let descent = [120_000i64, 90_000, 55_000];
    let mut all_events: Vec<ShotEvent> = Vec::new();
    let mut frame: i64 = 1;
    for round in 0..2 {
        let base = frame;
        let mut finished = false;
        while !finished && frame < base + 400 {
            let t = frame_time(frame);
            let local = frame - base;
            let y = if (local as usize) < descent.len() {
                descent[local as usize]
            } else {
                -1_000
            };
            let kps = vec![kp_at_target(-2_000, y)];
            let trigger = if local == 20 { Some(t - 1) } else { None };
            let events = engine.step(&cfg, t, CROP_W, CROP_H, &kps, trigger);
            for e in events {
                if matches!(e, ShotEvent::ShotFinished(_)) {
                    finished = true;
                }
                all_events.push(e);
            }
            frame += 1;
        }
        assert!(finished, "shot {} did not finish", round);
    }
    let finish_indices: Vec<usize> = all_events
        .iter()
        .enumerate()
        .filter_map(|(i, e)| matches!(e, ShotEvent::ShotFinished(_)).then_some(i))
        .collect();
    assert_eq!(finish_indices.len(), 2);
    let between = &all_events[finish_indices[0] + 1..finish_indices[1]];
    assert!(between.iter().any(|e| matches!(e, ShotEvent::ClearTrace)));
}
