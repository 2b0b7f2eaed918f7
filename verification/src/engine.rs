//! The Shot Engine: the shot-lifecycle state machine. It consumes camera
//! blob positions and audio triggers, segments each shot, and emits the
//! before-trace, the interpolated impact point and the after-trace.

use vstd::prelude::*;

use crate::geometry::{in_target, map_to_target, point_in_target, target_x_um, target_y_um};
use crate::spline::{interpolated_ok, spline_impact, spline_impact_spec};
use crate::types::{
    FineAdjust, Keypoint, Shot, TracePoint, CalibrationPoint, HALF_TARGET_UM, MAX_COORD_MPX,
    MAX_TIME_MS,
};

verus! {

/// Milliseconds without an in-target blob after which a started shot is
/// reset.
pub const LOST_TARGET_RESET_MS: i64 = 2_000;

/// Milliseconds in `Running` without a trigger after which the trace is
/// cleared (the shot stays started, its clock restarts).
pub const RUNNING_RESTART_MS: i64 = 60_000;

/// Milliseconds after the shot point at which the shot is finished.
pub const CLOSE_AFTER_SHOT_MS: i64 = 1_000;

/// The lifecycle phase of the engine.
#[derive(Clone, Copy, Debug, PartialEq, Eq, Structural)]
pub enum ShotPhase {
    /// No shot in progress; watching the pre-trace for the arming descent.
    Idle,
    /// Shot in progress, collecting the before-trace, no trigger matched.
    Running,
    /// Trigger matched to a frame; collecting the first after-trace
    /// samples, interpolation pending.
    Fired,
    /// Impact interpolated; flushing the tail of the after-trace.
    Closing,
}

/// The per-session configuration of the engine.
#[derive(Clone, Copy, Debug, PartialEq, Eq, Structural)]
pub struct ShotConfig {
    pub calibrate_point: CalibrationPoint,
    pub fine_adjust: FineAdjust,
    pub up_down: bool,
}

/// An event emitted to the UI by one engine step, in emission order.
#[derive(Clone, Debug)]
pub enum ShotEvent {
    ClearTrace,
    AddBefore(TracePoint),
    AddAfter(TracePoint),
    AddShot(TracePoint),
    ShotFinished(Shot),
}

/// Every point of the sequence is well-formed.
pub open spec fn tps_wf(s: Seq<TracePoint>) -> bool {
    forall|k: int| 0 <= k < s.len() ==> #[trigger] s[k].wf()
}

/// The time invariant of an emitted shot: every before-trace point is at
/// or before the shot point, every after-trace point at or after it.
pub open spec fn finished_wf(s: Shot) -> bool {
    &&& forall|k: int|
        0 <= k < s.before_trace@.len() ==> #[trigger] s.before_trace@[k].time_ms
            <= s.shot_point.time_ms
    &&& forall|k: int|
        0 <= k < s.after_trace@.len() ==> #[trigger] s.after_trace@[k].time_ms
            >= s.shot_point.time_ms
}

/// The number of `add_before` events emitted since the most recent
/// `clear_trace`, threaded through one step's event list: a `clear_trace`
/// resets the count, an `add_before` increments it.
pub open spec fn count_since_clear(e0: int, es: Seq<ShotEvent>) -> int
    decreases es.len(),
{
    if es.len() == 0 {
        e0
    } else {
        let p = count_since_clear(e0, es.drop_last());
        match es.last() {
            ShotEvent::ClearTrace => 0,
            ShotEvent::AddBefore(_) => p + 1,
            _ => p,
        }
    }
}

/// The engine's state as mathematical values: the traces as sequences,
/// the clocks as integers.
#[verifier::ext_equal]
pub ghost struct EngineModel {
    pub phase: ShotPhase,
    pub shot_start_ms: int,
    pub last_in_target_ms: int,
    pub last_frame_ms: int,
    pub frame_index: int,
    pub before: Seq<TracePoint>,
    pub shot_point: Option<TracePoint>,
    pub after: Seq<TracePoint>,
    pub pre: Seq<TracePoint>,
    pub trigger_ms: Option<int>,
}

/// One emitted event, with the finished shot's traces as sequences.
pub ghost enum EventModel {
    Clear,
    Before(TracePoint),
    After(TracePoint),
    Shot(TracePoint),
    Finished(Seq<TracePoint>, TracePoint, Seq<TracePoint>),
}

/// The mathematical value of one emitted event.
pub open spec fn event_model(e: ShotEvent) -> EventModel {
    match e {
        ShotEvent::ClearTrace => EventModel::Clear,
        ShotEvent::AddBefore(p) => EventModel::Before(p),
        ShotEvent::AddAfter(p) => EventModel::After(p),
        ShotEvent::AddShot(p) => EventModel::Shot(p),
        ShotEvent::ShotFinished(s) => EventModel::Finished(
            s.before_trace@,
            s.shot_point,
            s.after_trace@,
        ),
    }
}

/// The mathematical values of an event list.
pub open spec fn events_model(es: Seq<ShotEvent>) -> Seq<EventModel> {
    es.map_values(|e: ShotEvent| event_model(e))
}

/// The target-space point a keypoint maps to on this frame: the
/// rotated, flipped and scaled position with the fine adjust, stamped
/// with the time since the shot start.
pub open spec fn center_of(
    kp: Keypoint,
    crop_w_mpx: int,
    crop_h_mpx: int,
    fine_adjust: FineAdjust,
    time_rel: int,
) -> TracePoint {
    TracePoint {
        x_um: target_x_um(kp, crop_h_mpx, fine_adjust) as i64,
        y_um: target_y_um(kp, crop_w_mpx, fine_adjust) as i64,
        time_ms: time_rel as i64,
    }
}

/// The pending trigger after this frame's poll: a newly delivered trigger
/// replaces the held one.
pub open spec fn polled_trigger(m: EngineModel, trigger: Option<i64>) -> Option<int> {
    match trigger {
        Some(t) => Some(t as int),
        None => m.trigger_ms,
    }
}

/// The started-shot bookkeeping of one frame: the lost-target reset, the
/// 60-second running restart, or finishing one second after the shot
/// point; otherwise nothing.
#[verifier::opaque]
pub open spec fn step_spec_started(m: EngineModel, now: int, time_since: int) -> (
    EngineModel,
    Seq<EventModel>,
) {
    if m.phase != ShotPhase::Idle {
        if now - m.last_in_target_ms > LOST_TARGET_RESET_MS {
            (
                EngineModel {
                    phase: ShotPhase::Idle,
                    before: Seq::empty(),
                    shot_point: None,
                    after: Seq::empty(),
                    pre: Seq::empty(),
                    trigger_ms: None,
                    ..m
                },
                seq![EventModel::Clear],
            )
        } else if time_since > RUNNING_RESTART_MS && m.shot_point is None {
            (
                EngineModel {
                    before: Seq::empty(),
                    shot_point: None,
                    after: Seq::empty(),
                    shot_start_ms: now,
                    ..m
                },
                seq![EventModel::Clear],
            )
        } else if m.shot_point is Some && time_since - m.shot_point.unwrap().time_ms
            >= CLOSE_AFTER_SHOT_MS {
            (
                EngineModel {
                    phase: ShotPhase::Idle,
                    before: Seq::empty(),
                    shot_point: None,
                    after: Seq::empty(),
                    pre: Seq::empty(),
                    trigger_ms: None,
                    ..m
                },
                seq![EventModel::Finished(m.before, m.shot_point.unwrap(), m.after)],
            )
        } else {
            (m, Seq::empty())
        }
    } else {
        (m, Seq::empty())
    }
}

/// The blob handling of one frame: nothing unless exactly one blob was
/// detected; the pre-trace arming while idle; the before/after collection,
/// the trigger match, the interpolation at the third after-trace sample,
/// and the closing flush while started.
#[verifier::opaque]
pub open spec fn step_spec_detect(
    m: EngineModel,
    cfg: ShotConfig,
    now: int,
    crop_w_mpx: int,
    crop_h_mpx: int,
    kps: Seq<Keypoint>,
) -> (EngineModel, Seq<EventModel>) {
    if kps.len() == 1 {
        let center = center_of(kps[0], crop_w_mpx, crop_h_mpx, cfg.fine_adjust, now
            - m.shot_start_ms);
        let mt = if in_target(center) {
            EngineModel { last_in_target_ms: now, ..m }
        } else {
            m
        };
        if mt.phase == ShotPhase::Idle {
            let pre2 = if cfg.up_down {
                if mt.pre.len() <= 1 {
                    mt.pre.push(center)
                } else {
                    seq![mt.pre[1], center]
                }
            } else {
                mt.pre
            };
            let starts = if cfg.up_down {
                pre2.len() == 2 && pre2[0].y_um > HALF_TARGET_UM && pre2[1].y_um < HALF_TARGET_UM
            } else {
                true
            };
            if starts {
                (
                    EngineModel {
                        phase: ShotPhase::Running,
                        before: Seq::empty(),
                        shot_point: None,
                        after: Seq::empty(),
                        pre: Seq::empty(),
                        shot_start_ms: now,
                        ..mt
                    },
                    seq![EventModel::Clear],
                )
            } else {
                (EngineModel { pre: pre2, ..mt }, Seq::empty())
            }
        } else if mt.shot_point is None {
            match mt.trigger_ms {
                Some(t) => if t > now {
                    (
                        EngineModel {
                            before: mt.before.push(center),
                            shot_point: Some(center),
                            phase: ShotPhase::Fired,
                            ..mt
                        },
                        seq![EventModel::Before(center)],
                    )
                } else {
                    (
                        EngineModel {
                            after: mt.after.push(center),
                            shot_point: Some(center),
                            phase: ShotPhase::Fired,
                            ..mt
                        },
                        seq![EventModel::After(center)],
                    )
                },
                None => (
                    EngineModel { before: mt.before.push(center), ..mt },
                    seq![EventModel::Before(center)],
                ),
            }
        } else {
            if mt.after.len() < 2 {
                (EngineModel { after: mt.after.push(center), ..mt }, Seq::empty())
            } else if mt.after.len() == 2 {
                let after3 = mt.after.push(center);
                let tr = mt.trigger_ms.unwrap() - mt.shot_start_ms;
                let interp = if mt.before.len() >= 3 && tr >= 0 {
                    spline_impact_spec(mt.before, after3, tr as i64)
                } else {
                    None
                };
                let spx = match interp {
                    Some(p) => p,
                    None => mt.shot_point.unwrap(),
                };
                (
                    EngineModel {
                        after: after3,
                        shot_point: Some(spx),
                        trigger_ms: None,
                        phase: ShotPhase::Closing,
                        ..mt
                    },
                    seq![EventModel::Before(spx), EventModel::After(spx), EventModel::Shot(spx)],
                )
            } else {
                (
                    EngineModel { after: mt.after.push(center), ..mt },
                    seq![EventModel::After(center)],
                )
            }
        }
    } else {
        (m, Seq::empty())
    }
}

/// The engine's whole transition for one frame, row by row of the
/// shot-lifecycle table: the time bookkeeping and trigger poll, the
/// started-shot resets and finish, the blob handling, the end-of-frame
/// trigger clearing while idle, and the clock and counter updates.
#[verifier::opaque]
pub open spec fn step_spec(
    m: EngineModel,
    cfg: ShotConfig,
    now: int,
    crop_w_mpx: int,
    crop_h_mpx: int,
    kps: Seq<Keypoint>,
    trigger: Option<i64>,
) -> (EngineModel, Seq<EventModel>) {
    let time_since = if m.frame_index == 0 {
        0
    } else {
        now - m.shot_start_ms
    };
    let m1 = EngineModel { trigger_ms: polled_trigger(m, trigger), ..m };
    let st = step_spec_started(m1, now, time_since);
    let dt = step_spec_detect(st.0, cfg, now, crop_w_mpx, crop_h_mpx, kps);
    let m3 = dt.0;
    let m4 = if m3.phase == ShotPhase::Idle {
        EngineModel { trigger_ms: None, ..m3 }
    } else {
        m3
    };
    let m5 = EngineModel { frame_index: m.frame_index + 1, last_frame_ms: now, ..m4 };
    (m5, st.1.add(dt.1))
}

/// A frame with zero or several detected blobs contributes nothing: the
/// step adds no trace point and emits no add event; only the started-shot
/// bookkeeping (reset, restart or finish) acts on such a frame.
pub proof fn lemma_no_blob_contributes_nothing(
    m: EngineModel,
    cfg: ShotConfig,
    now: int,
    crop_w_mpx: int,
    crop_h_mpx: int,
    kps: Seq<Keypoint>,
    trigger: Option<i64>,
)
    requires
        kps.len() != 1,
    ensures
        ({
            let r = step_spec(m, cfg, now, crop_w_mpx, crop_h_mpx, kps, trigger);
            let time_since = if m.frame_index == 0 {
                0
            } else {
                now - m.shot_start_ms
            };
            let m1 = EngineModel { trigger_ms: polled_trigger(m, trigger), ..m };
            let st = step_spec_started(m1, now, time_since);
            &&& r.1 == st.1
            &&& r.0.before == st.0.before
            &&& r.0.shot_point == st.0.shot_point
            &&& r.0.after == st.0.after
            &&& r.0.pre == st.0.pre
            &&& r.0.phase == st.0.phase
        }),
{
    reveal(step_spec);
    reveal(step_spec_started);
    reveal(step_spec_detect);
}

/// Lost-target reset law: once a shot is started, a frame more than two
/// seconds after the last in-target blob emits a `clear_trace` first and
/// clears the shot; with no blob detected on that frame the engine is
/// back in `Idle` with empty traces and no shot point, and nothing is
/// finished.
pub proof fn lemma_lost_target_resets(
    m: EngineModel,
    cfg: ShotConfig,
    now: int,
    crop_w_mpx: int,
    crop_h_mpx: int,
    kps: Seq<Keypoint>,
    trigger: Option<i64>,
)
    requires
        m.phase != ShotPhase::Idle,
        now - m.last_in_target_ms > LOST_TARGET_RESET_MS,
    ensures
        ({
            let r = step_spec(m, cfg, now, crop_w_mpx, crop_h_mpx, kps, trigger);
            &&& r.1.len() >= 1
            &&& r.1[0] == EventModel::Clear
            &&& forall|k: int|
                0 <= k < r.1.len() ==> !(#[trigger] r.1[k] matches EventModel::Finished(_, _, _))
            &&& kps.len() != 1 ==> {
                &&& r.0.phase == ShotPhase::Idle
                &&& r.0.before.len() == 0
                &&& r.0.shot_point is None
                &&& r.0.after.len() == 0
            }
        }),
{
    reveal(step_spec);
    reveal(step_spec_started);
    reveal(step_spec_detect);
    let r = step_spec(m, cfg, now, crop_w_mpx, crop_h_mpx, kps, trigger);
    let time_since = if m.frame_index == 0 {
        0
    } else {
        now - m.shot_start_ms
    };
    let m1 = EngineModel { trigger_ms: polled_trigger(m, trigger), ..m };
    let st = step_spec_started(m1, now, time_since);
    let dt = step_spec_detect(st.0, cfg, now, crop_w_mpx, crop_h_mpx, kps);
    assert(st.1 == seq![EventModel::Clear]);
    assert(r.1 == st.1.add(dt.1));
    assert(r.1[0] == EventModel::Clear);
    assert forall|k: int|
        0 <= k < r.1.len() implies !(#[trigger] r.1[k] matches EventModel::Finished(_, _, _)) by {
        if k >= 1 {
            assert(r.1[k] == dt.1[k - 1]);
        }
    }
}

/// Arming law: from `Idle`, a single-blob frame starts the shot — with
/// up/down detection on, exactly when the previous pre-trace sample was
/// above the top edge and this frame's point is back below it; with
/// up/down off, on any single-blob frame. The step then emits exactly one
/// `clear_trace`, clears every trace, and runs from this frame's time.
pub proof fn lemma_arming_starts_shot(
    m: EngineModel,
    cfg: ShotConfig,
    now: int,
    crop_w_mpx: int,
    crop_h_mpx: int,
    kps: Seq<Keypoint>,
)
    requires
        m.phase == ShotPhase::Idle,
        kps.len() == 1,
        cfg.up_down ==> m.pre.len() == 2 && m.pre[1].y_um > HALF_TARGET_UM && center_of(
            kps[0],
            crop_w_mpx,
            crop_h_mpx,
            cfg.fine_adjust,
            now - m.shot_start_ms,
        ).y_um < HALF_TARGET_UM,
    ensures
        ({
            let r = step_spec(m, cfg, now, crop_w_mpx, crop_h_mpx, kps, None);
            &&& r.1 == seq![EventModel::Clear]
            &&& r.0.phase == ShotPhase::Running
            &&& r.0.shot_start_ms == now
            &&& r.0.before.len() == 0
            &&& r.0.shot_point is None
            &&& r.0.after.len() == 0
            &&& r.0.pre.len() == 0
        }),
{
    reveal(step_spec);
    reveal(step_spec_started);
    reveal(step_spec_detect);
    let r = step_spec(m, cfg, now, crop_w_mpx, crop_h_mpx, kps, None);
    assert(r.1 =~= seq![EventModel::Clear]);
}

/// Collection law: while `Running` with no trigger pending and neither
/// reset due, a single-blob frame appends exactly the mapped target-space
/// point — row offset flipped and scaled for x, column offset scaled for
/// y, each plus the fine adjust, stamped with the time since the shot
/// start — to the before-trace and emits it as one `add_before`; an
/// in-target point refreshes the in-target clock.
pub proof fn lemma_running_collects_mapped_point(
    m: EngineModel,
    cfg: ShotConfig,
    now: int,
    crop_w_mpx: int,
    crop_h_mpx: int,
    kps: Seq<Keypoint>,
)
    requires
        m.phase == ShotPhase::Running,
        m.shot_point is None,
        m.trigger_ms is None,
        kps.len() == 1,
        now - m.last_in_target_ms <= LOST_TARGET_RESET_MS,
        now - m.shot_start_ms <= RUNNING_RESTART_MS,
    ensures
        ({
            let r = step_spec(m, cfg, now, crop_w_mpx, crop_h_mpx, kps, None);
            let c = center_of(kps[0], crop_w_mpx, crop_h_mpx, cfg.fine_adjust, now
                - m.shot_start_ms);
            &&& r.0.before == m.before.push(c)
            &&& r.1 == seq![EventModel::Before(c)]
            &&& r.0.phase == ShotPhase::Running
            &&& in_target(c) ==> r.0.last_in_target_ms == now
            &&& !in_target(c) ==> r.0.last_in_target_ms == m.last_in_target_ms
        }),
{
    reveal(step_spec);
    reveal(step_spec_started);
    reveal(step_spec_detect);
    let r = step_spec(m, cfg, now, crop_w_mpx, crop_h_mpx, kps, None);
    let c = center_of(kps[0], crop_w_mpx, crop_h_mpx, cfg.fine_adjust, now - m.shot_start_ms);
    assert(r.1 =~= seq![EventModel::Before(c)]);
}

/// Running-restart law: a minute into a started shot with no trigger yet,
/// provided the target was seen within the last two seconds, the step
/// clears the traces, emits a `clear_trace` first, finishes nothing, and
/// restarts the shot clock at this frame; the shot stays started.
pub proof fn lemma_running_restart(
    m: EngineModel,
    cfg: ShotConfig,
    now: int,
    crop_w_mpx: int,
    crop_h_mpx: int,
    kps: Seq<Keypoint>,
    trigger: Option<i64>,
)
    requires
        m.phase != ShotPhase::Idle,
        m.shot_point is None,
        m.frame_index != 0,
        now - m.last_in_target_ms <= LOST_TARGET_RESET_MS,
        now - m.shot_start_ms > RUNNING_RESTART_MS,
    ensures
        ({
            let r = step_spec(m, cfg, now, crop_w_mpx, crop_h_mpx, kps, trigger);
            &&& r.1.len() >= 1
            &&& r.1[0] == EventModel::Clear
            &&& forall|k: int|
                0 <= k < r.1.len() ==> !(#[trigger] r.1[k] matches EventModel::Finished(_, _, _))
            &&& kps.len() != 1 ==> r.0.shot_start_ms == now && r.0.phase == m.phase
                && r.0.before.len() == 0
        }),
{
    reveal(step_spec);
    reveal(step_spec_started);
    reveal(step_spec_detect);
    let time_since = now - m.shot_start_ms;
    let m1 = EngineModel { trigger_ms: polled_trigger(m, trigger), ..m };
    let st = step_spec_started(m1, now, time_since);
    let dt = step_spec_detect(st.0, cfg, now, crop_w_mpx, crop_h_mpx, kps);
    let r = step_spec(m, cfg, now, crop_w_mpx, crop_h_mpx, kps, trigger);
    assert(st.1 == seq![EventModel::Clear]);
    assert(r.1 == st.1.add(dt.1));
    assert forall|k: int|
        0 <= k < r.1.len() implies !(#[trigger] r.1[k] matches EventModel::Finished(_, _, _)) by {
        if k >= 1 {
            assert(r.1[k] == dt.1[k - 1]);
        }
    }
}

/// Finish law: one second after the shot point, with the target still
/// seen within the last two seconds, the step emits `shot_finished` first,
/// carrying exactly the accumulated before-trace, shot point and
/// after-trace, and the shot is over: with no new blob this frame the
/// engine is back in `Idle` with everything cleared.
pub proof fn lemma_finish_one_second_after_shot(
    m: EngineModel,
    cfg: ShotConfig,
    now: int,
    crop_w_mpx: int,
    crop_h_mpx: int,
    kps: Seq<Keypoint>,
)
    requires
        m.phase != ShotPhase::Idle,
        m.shot_point is Some,
        m.frame_index != 0,
        now - m.last_in_target_ms <= LOST_TARGET_RESET_MS,
        now - m.shot_start_ms - m.shot_point.unwrap().time_ms >= CLOSE_AFTER_SHOT_MS,
    ensures
        ({
            let r = step_spec(m, cfg, now, crop_w_mpx, crop_h_mpx, kps, None);
            &&& r.1.len() >= 1
            &&& r.1[0] == EventModel::Finished(m.before, m.shot_point.unwrap(), m.after)
            &&& kps.len() != 1 ==> {
                &&& r.0.phase == ShotPhase::Idle
                &&& r.0.before.len() == 0
                &&& r.0.shot_point is None
                &&& r.0.after.len() == 0
                &&& r.0.pre.len() == 0
                &&& r.0.trigger_ms is None
            }
        }),
{
    reveal(step_spec);
    reveal(step_spec_started);
    reveal(step_spec_detect);
}

proof fn lemma_events_model_push(es: Seq<ShotEvent>, e: ShotEvent)
    ensures
        events_model(es.push(e)) == events_model(es).push(event_model(e)),
{
    assert(events_model(es.push(e)) =~= events_model(es).push(event_model(e)));
}

/// The shot-lifecycle state machine.
pub struct ShotEngine {
    pub phase: ShotPhase,
    pub shot_start_ms: i64,
    pub last_in_target_ms: i64,
    pub last_frame_ms: i64,
    pub frame_index: u64,
    pub before_trace: Vec<TracePoint>,
    pub shot_point: Option<TracePoint>,
    pub after_trace: Vec<TracePoint>,
    pub pre_trace: Vec<TracePoint>,
    pub trigger_ms: Option<i64>,
    /// The number of `add_before` events emitted since the current shot's
    /// `clear_trace`.
    pub emitted_before: Ghost<int>,
}

impl ShotEngine {
    /// The engine's invariant: clocks ordered and in range, traces
    /// well-formed, and per-phase facts that carry the emitted shots' time
    /// invariant.
    pub open spec fn wf(self) -> bool {
        &&& 0 <= self.shot_start_ms <= self.last_frame_ms <= MAX_TIME_MS
        &&& 0 <= self.last_in_target_ms <= self.last_frame_ms
        &&& tps_wf(self.before_trace@)
        &&& tps_wf(self.after_trace@)
        &&& tps_wf(self.pre_trace@)
        &&& self.pre_trace@.len() <= 2
        &&& match self.trigger_ms {
            Some(t) => 0 <= t <= MAX_TIME_MS,
            None => true,
        }
        &&& match self.phase {
            ShotPhase::Idle => {
                &&& self.before_trace@.len() == 0
                &&& self.after_trace@.len() == 0
                &&& self.shot_point is None
            },
            ShotPhase::Running => {
                &&& self.shot_point is None
                &&& self.after_trace@.len() == 0
                &&& forall|k: int|
                    0 <= k < self.before_trace@.len() ==> self.shot_start_ms
                        + #[trigger] self.before_trace@[k].time_ms <= self.last_frame_ms
                &&& match self.trigger_ms {
                    Some(t0) => forall|k: int|
                        0 <= k < self.before_trace@.len() ==> self.shot_start_ms
                            + #[trigger] self.before_trace@[k].time_ms <= t0,
                    None => true,
                }
                &&& self.emitted_before@ == self.before_trace@.len()
            },
            ShotPhase::Fired => {
                &&& self.shot_point matches Some(sp) && {
                    &&& sp.wf()
                    &&& self.trigger_ms matches Some(t) && {
                        &&& forall|k: int|
                            0 <= k < self.before_trace@.len() ==> self.shot_start_ms
                                + #[trigger] self.before_trace@[k].time_ms <= t
                        &&& forall|k: int|
                            0 <= k < self.after_trace@.len() ==> self.shot_start_ms
                                + #[trigger] self.after_trace@[k].time_ms >= t
                    }
                    &&& self.after_trace@.len() <= 2
                    &&& forall|k: int|
                        0 <= k < self.before_trace@.len()
                            ==> #[trigger] self.before_trace@[k].time_ms <= sp.time_ms
                    &&& forall|k: int|
                        0 <= k < self.after_trace@.len()
                            ==> #[trigger] self.after_trace@[k].time_ms >= sp.time_ms
                    &&& self.shot_start_ms + sp.time_ms <= self.last_frame_ms
                }
                &&& self.emitted_before@ == self.before_trace@.len()
            },
            ShotPhase::Closing => {
                &&& self.shot_point matches Some(sp) && {
                    &&& 0 <= sp.time_ms <= MAX_TIME_MS
                    &&& self.after_trace@.len() >= 3
                    &&& forall|k: int|
                        0 <= k < self.before_trace@.len()
                            ==> #[trigger] self.before_trace@[k].time_ms <= sp.time_ms
                    &&& forall|k: int|
                        0 <= k < self.after_trace@.len()
                            ==> #[trigger] self.after_trace@[k].time_ms >= sp.time_ms
                    &&& self.shot_start_ms + sp.time_ms <= self.last_frame_ms
                }
                &&& self.emitted_before@ == self.before_trace@.len() + 1
            },
        }
    }

    /// The engine's state as mathematical values.
    pub open spec fn model(self) -> EngineModel {
        EngineModel {
            phase: self.phase,
            shot_start_ms: self.shot_start_ms as int,
            last_in_target_ms: self.last_in_target_ms as int,
            last_frame_ms: self.last_frame_ms as int,
            frame_index: self.frame_index as int,
            before: self.before_trace@,
            shot_point: self.shot_point,
            after: self.after_trace@,
            pre: self.pre_trace@,
            trigger_ms: match self.trigger_ms {
                Some(t) => Some(t as int),
                None => None,
            },
        }
    }

    /// A fresh engine, idle, with its clocks at the given start time.
    pub fn new(now_ms: i64) -> (r: ShotEngine)
        requires
            0 <= now_ms <= MAX_TIME_MS,
        ensures
            r.wf(),
            r.phase == ShotPhase::Idle,
            r.shot_start_ms == now_ms,
            r.last_in_target_ms == now_ms,
            r.last_frame_ms == now_ms,
            r.frame_index == 0,
            r.before_trace@.len() == 0,
            r.shot_point is None,
            r.after_trace@.len() == 0,
            r.pre_trace@.len() == 0,
            r.trigger_ms is None,
            r.emitted_before@ == 0,
    {
        ShotEngine {
            phase: ShotPhase::Idle,
            shot_start_ms: now_ms,
            last_in_target_ms: now_ms,
            last_frame_ms: now_ms,
            frame_index: 0,
            before_trace: Vec::new(),
            shot_point: None,
            after_trace: Vec::new(),
            pre_trace: Vec::new(),
            trigger_ms: None,
            emitted_before: Ghost(0),
        }
    }
}

/// The event is a `shot_finished`.
pub open spec fn is_finished(e: ShotEvent) -> bool {
    e matches ShotEvent::ShotFinished(_)
}

/// The event is a `clear_trace`.
pub open spec fn is_clear(e: ShotEvent) -> bool {
    e matches ShotEvent::ClearTrace
}

/// No `shot_finished` in the list.
pub open spec fn no_finish(es: Seq<ShotEvent>) -> bool {
    forall|k: int| 0 <= k < es.len() ==> !is_finished(#[trigger] es[k])
}

/// At most one `shot_finished` in the list.
pub open spec fn single_finish(es: Seq<ShotEvent>) -> bool {
    forall|k1: int, k2: int|
        0 <= k1 < k2 < es.len() ==> !(is_finished(#[trigger] es[k1]) && is_finished(
            #[trigger] es[k2],
        ))
}

/// Some `clear_trace` comes after every `shot_finished` of the list.
pub open spec fn clear_covers_finish(es: Seq<ShotEvent>) -> bool {
    exists|j: int|
        0 <= j < es.len() && is_clear(#[trigger] es[j]) && forall|k: int|
            0 <= k < es.len() && is_finished(#[trigger] es[k]) ==> k < j
}

/// Every `shot_finished` of one step's events satisfies the shot time
/// invariant, was emitted from a started phase, and reports a before-trace
/// whose length matches the `add_before` count of its shot: one less than
/// the count when the shot point was interpolated (an extra `add_before`
/// carries the interpolated point), equal to it when the shot closed
/// before interpolation.
pub open spec fn events_ok(pre: ShotEngine, es: Seq<ShotEvent>) -> bool {
    forall|k: int|
        0 <= k < es.len() ==> match #[trigger] es[k] {
            ShotEvent::ShotFinished(s) => {
                &&& finished_wf(s)
                &&& s.before_trace@ == pre.before_trace@
                &&& pre.shot_point == Some(s.shot_point)
                &&& s.after_trace@ == pre.after_trace@
                &&& (pre.phase == ShotPhase::Closing || pre.phase == ShotPhase::Fired)
                &&& (pre.phase == ShotPhase::Closing ==> pre.emitted_before@ == s.before_trace@.len()
                    + 1)
                &&& (pre.phase == ShotPhase::Fired ==> pre.emitted_before@
                    == s.before_trace@.len())
            },
            _ => true,
        }
}

proof fn lemma_count_push(e0: int, es: Seq<ShotEvent>, e: ShotEvent)
    ensures
        count_since_clear(e0, es.push(e)) == match e {
            ShotEvent::ClearTrace => 0,
            ShotEvent::AddBefore(_) => count_since_clear(e0, es) + 1,
            _ => count_since_clear(e0, es),
        },
{
    assert(es.push(e).drop_last() =~= es);
    assert(es.push(e).last() == e);
}

proof fn lemma_tps_push(s: Seq<TracePoint>, p: TracePoint)
    requires
        tps_wf(s),
        p.wf(),
    ensures
        tps_wf(s.push(p)),
{
    assert forall|k: int| 0 <= k < s.push(p).len() implies #[trigger] s.push(p)[k].wf() by {
        if k < s.len() {
            assert(s.push(p)[k] == s[k]);
        } else {
            assert(s.push(p)[k] == p);
        }
    }
}

/// An element-by-element copy of a trace.
fn copy_points(src: &Vec<TracePoint>) -> (r: Vec<TracePoint>)
    ensures
        r@ == src@,
{
    let mut out: Vec<TracePoint> = Vec::new();
    let mut i: usize = 0;
    while i < src.len()
        invariant
            0 <= i <= src@.len(),
            out@ =~= src@.subrange(0, i as int),
        decreases src@.len() - i,
    {
        out.push(src[i]);
        i = i + 1;
    }
    proof {
        assert(out@ =~= src@);
    }
    out
}

impl ShotEngine {
    /// Processes one camera frame. The contract pins the step completely:
    /// the new state and the emitted events equal `step_spec` of the old
    /// state and the inputs; the remaining clauses are the safety laws the
    /// run-level lemmas build on.
    ///
    /// `keypoints` are the blobs detected on the crop around the
    /// calibration point, `crop_w_mpx` and `crop_h_mpx` that crop's size;
    /// a frame with zero or several blobs contributes no trace point.
    /// `trigger` is the absolute timestamp of a newly delivered shot
    /// trigger; the debounce spaces triggers at least five seconds
    /// apart, so a trigger never arrives while one is pending or while a
    /// shot is between trigger and interpolation. A pending trigger's
    /// timestamp never exceeds the time of the frame captured after its
    /// delivery.
    #[verifier::rlimit(100)]
    pub fn step(
        &mut self,
        cfg: &ShotConfig,
        now_ms: i64,
        crop_w_mpx: i64,
        crop_h_mpx: i64,
        keypoints: &Vec<Keypoint>,
        trigger: Option<i64>,
    ) -> (events: Vec<ShotEvent>)
        requires
            old(self).wf(),
            old(self).frame_index < u64::MAX,
            cfg.fine_adjust.wf(),
            0 <= crop_w_mpx <= MAX_COORD_MPX,
            0 <= crop_h_mpx <= MAX_COORD_MPX,
            forall|k: int| 0 <= k < keypoints@.len() ==> #[trigger] keypoints@[k].wf(),
            old(self).last_frame_ms <= now_ms <= MAX_TIME_MS,
            trigger matches Some(t) ==> {
                &&& old(self).last_frame_ms <= t <= MAX_TIME_MS
                &&& old(self).trigger_ms is None
                &&& old(self).phase != ShotPhase::Fired
            },
            old(self).trigger_ms matches Some(t0) ==> t0 <= now_ms,
        ensures
            final(self).model() == step_spec(
                old(self).model(),
                *cfg,
                now_ms as int,
                crop_w_mpx as int,
                crop_h_mpx as int,
                keypoints@,
                trigger,
            ).0,
            events_model(events@) == step_spec(
                old(self).model(),
                *cfg,
                now_ms as int,
                crop_w_mpx as int,
                crop_h_mpx as int,
                keypoints@,
                trigger,
            ).1,
            final(self).wf(),
            final(self).last_frame_ms == now_ms,
            events_ok(*old(self), events@),
            single_finish(events@),
            final(self).phase != ShotPhase::Idle ==> (no_finish(events@) && old(self).phase
                != ShotPhase::Idle) || clear_covers_finish(events@),
            final(self).emitted_before@ == count_since_clear(old(self).emitted_before@, events@),
            // while the shot is closing, only after-trace points are emitted:
            // no clear_trace, add_before, add_shot or shot_finished comes
            // between a shot's add_shot and its shot_finished
            old(self).phase == ShotPhase::Closing && final(self).phase == ShotPhase::Closing
                ==> forall|k: int|
                0 <= k < events@.len() ==> (#[trigger] events@[k] matches ShotEvent::AddAfter(_)),
            // the shot point set at the fired-to-closing transition is the
            // natural-spline interpolation at the trigger instant, or the
            // already-selected frame point when interpolation is not possible
            old(self).phase == ShotPhase::Fired && final(self).phase == ShotPhase::Closing
                ==> (final(self).shot_point matches Some(p) && (interpolated_ok(
                final(self).before_trace@,
                final(self).after_trace@,
                (old(self).trigger_ms.unwrap() - old(self).shot_start_ms) as i64,
                p,
            ) || Some(p) == old(self).shot_point)),
    {
        let ghost pre = *old(self);
        let mut events: Vec<ShotEvent> = Vec::new();
        let time_since_start: i64 = if self.frame_index == 0 {
            0
        } else {
            now_ms - self.shot_start_ms
        };
        if trigger.is_some() {
            self.trigger_ms = trigger;
        }
        let ghost m0 = pre.model();
        let ghost m1g = EngineModel { trigger_ms: polled_trigger(m0, trigger), ..m0 };
        let ghost stg = step_spec_started(m1g, now_ms as int, time_since_start as int);
        proof {
            assert(self.model() =~= m1g);
        }
        let started: bool = match self.phase {
            ShotPhase::Idle => false,
            _ => true,
        };
        if started {
            let dt_circle: i64 = now_ms - self.last_in_target_ms;
            if dt_circle > LOST_TARGET_RESET_MS {
                // the aim left the target (or was lost) for too long
                self.phase = ShotPhase::Idle;
                self.before_trace = Vec::new();
                self.shot_point = None;
                self.after_trace = Vec::new();
                self.pre_trace = Vec::new();
                self.trigger_ms = None;
                let ghost es0 = events@;
                events.push(ShotEvent::ClearTrace);
                self.emitted_before = Ghost(0);
                proof {
                    lemma_count_push(pre.emitted_before@, es0, ShotEvent::ClearTrace);
                    lemma_events_model_push(es0, ShotEvent::ClearTrace);
                }
            } else if time_since_start > RUNNING_RESTART_MS && self.shot_point.is_none() {
                // no trigger for a minute: restart the running shot's clock
                self.before_trace = Vec::new();
                self.shot_point = None;
                self.after_trace = Vec::new();
                let ghost es0 = events@;
                events.push(ShotEvent::ClearTrace);
                self.emitted_before = Ghost(0);
                self.shot_start_ms = now_ms;
                proof {
                    lemma_count_push(pre.emitted_before@, es0, ShotEvent::ClearTrace);
                    lemma_events_model_push(es0, ShotEvent::ClearTrace);
                }
            } else {
                let finish: bool = match self.shot_point {
                    Some(sp) => time_since_start - sp.time_ms >= CLOSE_AFTER_SHOT_MS,
                    None => false,
                };
                if finish {
                    let sp: TracePoint = match self.shot_point {
                        Some(sp) => sp,
                        None => TracePoint { x_um: 0, y_um: 0, time_ms: 0 },
                    };
                    let b: Vec<TracePoint> = copy_points(&self.before_trace);
                    let a: Vec<TracePoint> = copy_points(&self.after_trace);
                    let ghost es0 = events@;
                    let shot = Shot { before_trace: b, shot_point: sp, after_trace: a };
                    events.push(ShotEvent::ShotFinished(shot));
                    proof {
                        lemma_count_push(pre.emitted_before@, es0, ShotEvent::ShotFinished(shot));
                    lemma_events_model_push(es0, ShotEvent::ShotFinished(shot));
                    }
                    self.phase = ShotPhase::Idle;
                    self.before_trace = Vec::new();
                    self.shot_point = None;
                    self.after_trace = Vec::new();
                    self.pre_trace = Vec::new();
                    self.trigger_ms = None;
                }
            }
        }
        proof {
            reveal(step_spec_started);
            assert(self.model() =~= stg.0);
            assert(events_model(events@) =~= stg.1);
        }
        let ghost dtg = step_spec_detect(
            stg.0,
            *cfg,
            now_ms as int,
            crop_w_mpx as int,
            crop_h_mpx as int,
            keypoints@,
        );
        if keypoints.len() == 1 {
            let kp: Keypoint = keypoints[0];
            let t_pt: i64 = now_ms - self.shot_start_ms;
            let center: TracePoint = map_to_target(
                &kp,
                crop_w_mpx,
                crop_h_mpx,
                &cfg.fine_adjust,
                t_pt,
            );
            proof {
                assert(center == center_of(
                    kp,
                    crop_w_mpx as int,
                    crop_h_mpx as int,
                    cfg.fine_adjust,
                    now_ms - self.shot_start_ms,
                ));
            }
            if point_in_target(&center) {
                self.last_in_target_ms = now_ms;
            }
            let idle_now: bool = match self.phase {
                ShotPhase::Idle => true,
                _ => false,
            };
            if idle_now {
                let mut shot_starts: bool = false;
                if cfg.up_down {
                    // slide the two-sample pre-trace window
                    if self.pre_trace.len() <= 1 {
                        proof {
                            lemma_tps_push(self.pre_trace@, center);
                        }
                        self.pre_trace.push(center);
                    } else {
                        let p1: TracePoint = self.pre_trace[1];
                        self.pre_trace.set(0, p1);
                        self.pre_trace.set(1, center);
                        proof {
                            assert(self.pre_trace@ =~= seq![p1, center]);
                            assert forall|k: int| 0 <= k < self.pre_trace@.len() implies
                                #[trigger] self.pre_trace@[k].wf() by {
                                assert(self.pre_trace@[0] == p1 && self.pre_trace@[1] == center);
                            }
                        }
                    }
                    if self.pre_trace.len() == 2 {
                        // the aim went past the top edge and came back down
                        shot_starts = self.pre_trace[0].y_um > HALF_TARGET_UM
                            && self.pre_trace[1].y_um < HALF_TARGET_UM;
                    }
                } else {
                    shot_starts = true;
                }
                if shot_starts {
                    self.before_trace = Vec::new();
                    self.shot_point = None;
                    self.after_trace = Vec::new();
                    self.pre_trace = Vec::new();
                    let ghost es0 = events@;
                    events.push(ShotEvent::ClearTrace);
                    self.emitted_before = Ghost(0);
                    self.shot_start_ms = now_ms;
                    self.phase = ShotPhase::Running;
                    proof {
                        lemma_count_push(pre.emitted_before@, es0, ShotEvent::ClearTrace);
                    lemma_events_model_push(es0, ShotEvent::ClearTrace);
                    }
                }
            } else {
                if self.shot_point.is_none() {
                    // collecting the before-trace
                    let trig: Option<i64> = self.trigger_ms;
                    match trig {
                        Some(t) => {
                            if t > now_ms {
                                // trigger fell after this frame was taken
                                let ghost bt0 = self.before_trace@;
                                proof {
                                    lemma_tps_push(self.before_trace@, center);
                                }
                                self.before_trace.push(center);
                                proof {
                                    assert forall|k: int|
                                        0 <= k < self.before_trace@.len() implies
                                        self.shot_start_ms
                                            + #[trigger] self.before_trace@[k].time_ms <= t
                                            && #[trigger] self.before_trace@[k].time_ms
                                            <= center.time_ms by {
                                        if k < bt0.len() {
                                            assert(self.before_trace@[k] == bt0[k]);
                                            assert(self.shot_start_ms + bt0[k].time_ms
                                                <= self.last_frame_ms);
                                        } else {
                                            assert(self.before_trace@[k] == center);
                                        }
                                    }
                                }
                                let ghost es0 = events@;
                                events.push(ShotEvent::AddBefore(center));
                                self.emitted_before = Ghost(self.emitted_before@ + 1);
                                proof {
                                    lemma_count_push(pre.emitted_before@, es0, ShotEvent::AddBefore(center));
                    lemma_events_model_push(es0, ShotEvent::AddBefore(center));
                                }
                            } else {
                                // trigger fell before this frame was taken
                                let ghost at0 = self.after_trace@;
                                proof {
                                    lemma_tps_push(self.after_trace@, center);
                                }
                                self.after_trace.push(center);
                                proof {
                                    assert(at0.len() == 0);
                                    assert(self.after_trace@[0] == center);
                                    assert forall|k: int|
                                        0 <= k < self.before_trace@.len() implies
                                        #[trigger] self.before_trace@[k].time_ms
                                            <= center.time_ms by {
                                        assert(self.shot_start_ms
                                            + self.before_trace@[k].time_ms
                                            <= self.last_frame_ms);
                                    }
                                }
                                let ghost es0 = events@;
                                events.push(ShotEvent::AddAfter(center));
                                proof {
                                    lemma_count_push(pre.emitted_before@, es0, ShotEvent::AddAfter(center));
                    lemma_events_model_push(es0, ShotEvent::AddAfter(center));
                                }
                            }
                            self.shot_point = Some(center);
                            self.phase = ShotPhase::Fired;
                        },
                        None => {
                            let ghost bt0 = self.before_trace@;
                            proof {
                                lemma_tps_push(self.before_trace@, center);
                            }
                            self.before_trace.push(center);
                            proof {
                                assert forall|k: int|
                                    0 <= k < self.before_trace@.len() implies self.shot_start_ms
                                        + #[trigger] self.before_trace@[k].time_ms <= now_ms by {
                                    if k < bt0.len() {
                                        assert(self.before_trace@[k] == bt0[k]);
                                        assert(self.shot_start_ms + bt0[k].time_ms
                                            <= self.last_frame_ms);
                                    } else {
                                        assert(self.before_trace@[k] == center);
                                    }
                                }
                            }
                            let ghost es0 = events@;
                            events.push(ShotEvent::AddBefore(center));
                            self.emitted_before = Ghost(self.emitted_before@ + 1);
                            proof {
                                lemma_count_push(pre.emitted_before@, es0, ShotEvent::AddBefore(center));
                    lemma_events_model_push(es0, ShotEvent::AddBefore(center));
                            }
                        },
                    }
                } else {
                    if self.after_trace.len() < 2 {
                        let ghost at0 = self.after_trace@;
                        proof {
                            lemma_tps_push(self.after_trace@, center);
                        }
                        self.after_trace.push(center);
                        proof {
                            let sp = self.shot_point.unwrap();
                            let t0 = self.trigger_ms.unwrap();
                            assert forall|k: int|
                                0 <= k < self.after_trace@.len() implies self.shot_start_ms
                                    + #[trigger] self.after_trace@[k].time_ms >= t0
                                    && #[trigger] self.after_trace@[k].time_ms >= sp.time_ms by {
                                if k < at0.len() {
                                    assert(self.after_trace@[k] == at0[k]);
                                } else {
                                    assert(self.after_trace@[k] == center);
                                }
                            }
                        }
                    } else if self.after_trace.len() == 2 {
                        let ghost at0 = self.after_trace@;
                        proof {
                            lemma_tps_push(self.after_trace@, center);
                        }
                        self.after_trace.push(center);
                        proof {
                            let sp = self.shot_point.unwrap();
                            let t0 = self.trigger_ms.unwrap();
                            assert forall|k: int|
                                0 <= k < self.after_trace@.len() implies self.shot_start_ms
                                    + #[trigger] self.after_trace@[k].time_ms >= t0
                                    && #[trigger] self.after_trace@[k].time_ms >= sp.time_ms by {
                                if k < at0.len() {
                                    assert(self.after_trace@[k] == at0[k]);
                                } else {
                                    assert(self.after_trace@[k] == center);
                                }
                            }
                        }
                        let t: i64 = match self.trigger_ms {
                            Some(t) => t,
                            None => 0,
                        };
                        proof {
                            assert(self.phase == ShotPhase::Fired);
                            assert(pre.trigger_ms is Some);
                        }
                        let trigger_rel: i64 = t - self.shot_start_ms;
                        let interp: Option<TracePoint> = if self.before_trace.len() >= 3
                            && trigger_rel >= 0 {
                            spline_impact(&self.before_trace, &self.after_trace, trigger_rel)
                        } else {
                            None
                        };
                        // on failure, keep the frame point closest to the
                        // trigger that the trigger match already selected
                        let spx: TracePoint = match interp {
                            Some(p) => p,
                            None => match self.shot_point {
                                Some(sp) => sp,
                                None => center,
                            },
                        };
                        self.shot_point = Some(spx);
                        let ghost es1 = events@;
                        events.push(ShotEvent::AddBefore(spx));
                        self.emitted_before = Ghost(self.emitted_before@ + 1);
                        proof {
                            lemma_count_push(pre.emitted_before@, es1, ShotEvent::AddBefore(spx));
                    lemma_events_model_push(es1, ShotEvent::AddBefore(spx));
                        }
                        let ghost es2 = events@;
                        events.push(ShotEvent::AddAfter(spx));
                        proof {
                            lemma_count_push(pre.emitted_before@, es2, ShotEvent::AddAfter(spx));
                    lemma_events_model_push(es2, ShotEvent::AddAfter(spx));
                        }
                        let ghost es3 = events@;
                        events.push(ShotEvent::AddShot(spx));
                        proof {
                            lemma_count_push(pre.emitted_before@, es3, ShotEvent::AddShot(spx));
                    lemma_events_model_push(es3, ShotEvent::AddShot(spx));
                        }
                        self.trigger_ms = None;
                        self.phase = ShotPhase::Closing;
                    } else {
                        proof {
                            lemma_tps_push(self.after_trace@, center);
                        }
                        self.after_trace.push(center);
                        let ghost es0 = events@;
                        events.push(ShotEvent::AddAfter(center));
                        proof {
                            lemma_count_push(pre.emitted_before@, es0, ShotEvent::AddAfter(center));
                    lemma_events_model_push(es0, ShotEvent::AddAfter(center));
                        }
                    }
                }
            }
        }
        proof {
            reveal(step_spec_detect);
            assert(self.model() =~= dtg.0);
            assert(events_model(events@) =~= stg.1.add(dtg.1));
        }
        let idle_end: bool = match self.phase {
            ShotPhase::Idle => true,
            _ => false,
        };
        if idle_end {
            self.trigger_ms = None;
        }
        self.frame_index = self.frame_index + 1;
        self.last_frame_ms = now_ms;
        proof {
            reveal(step_spec);
            let spr = step_spec(
                m0,
                *cfg,
                now_ms as int,
                crop_w_mpx as int,
                crop_h_mpx as int,
                keypoints@,
                trigger,
            );
            assert(self.model() =~= spr.0);
            assert(events_model(events@) =~= spr.1);
        }
        events
    }
}

/// The event stream of a whole run: the per-step event lists, in step
/// order, concatenated.
pub open spec fn flat(ess: Seq<Seq<ShotEvent>>) -> Seq<ShotEvent>
    decreases ess.len(),
{
    if ess.len() == 0 {
        Seq::empty()
    } else {
        flat(ess.drop_last()).add(ess.last())
    }
}

/// Between any two `shot_finished` events there is a `clear_trace`.
pub open spec fn clear_between_finishes(es: Seq<ShotEvent>) -> bool {
    forall|k1: int, k2: int|
        0 <= k1 < k2 < es.len() && is_finished(#[trigger] es[k1]) && is_finished(
            #[trigger] es[k2],
        ) ==> exists|j: int| k1 < j < k2 && is_clear(#[trigger] es[j])
}

/// While the engine is started, every `shot_finished` emitted so far is
/// followed by a `clear_trace`.
pub open spec fn started_covered(started: bool, es: Seq<ShotEvent>) -> bool {
    started ==> forall|k: int|
        0 <= k < es.len() && is_finished(#[trigger] es[k]) ==> exists|j: int|
            k < j < es.len() && is_clear(#[trigger] es[j])
}

/// The shape that one engine step's events have, per `step`'s contract:
/// at most one `shot_finished`; none from an idle engine; and an engine
/// left started either finished nothing and was already started, or
/// emitted a `clear_trace` after any `shot_finished`.
pub open spec fn step_shape(pre_started: bool, post_started: bool, es: Seq<ShotEvent>) -> bool {
    &&& single_finish(es)
    &&& !pre_started ==> no_finish(es)
    &&& post_started ==> (no_finish(es) && pre_started) || clear_covers_finish(es)
}

/// Law: any run of steps whose events have the shape that `step`
/// guarantees, beginning idle, emits at least one `clear_trace` between
/// any two consecutive `shot_finished` events.
pub proof fn lemma_clear_between_finishes(started: Seq<bool>, ess: Seq<Seq<ShotEvent>>)
    requires
        started.len() == ess.len() + 1,
        !started[0],
        forall|i: int|
            0 <= i < ess.len() ==> step_shape(started[i], started[i + 1], #[trigger] ess[i]),
    ensures
        clear_between_finishes(flat(ess)),
        started_covered(started.last(), flat(ess)),
    decreases ess.len(),
{
    if ess.len() == 0 {
        assert(flat(ess) =~= Seq::<ShotEvent>::empty());
    } else {
        let n = ess.len();
        let prefix = ess.drop_last();
        let sp = started.subrange(0, n as int);
        assert(forall|i: int|
            0 <= i < prefix.len() ==> step_shape(sp[i], sp[i + 1], #[trigger] prefix[i]));
        lemma_clear_between_finishes(sp, prefix);
        let fp = flat(prefix);
        let last = ess.last();
        let f = flat(ess);
        assert(f == fp.add(last));
        assert(forall|i: int| 0 <= i < fp.len() ==> #[trigger] f[i] == fp[i]);
        assert(forall|i: int| fp.len() <= i < f.len() ==> #[trigger] f[i] == last[i - fp.len()]);
        assert(step_shape(started[n - 1], started[n as int], last));
        // the pre-state of the last step, as the prefix run left it
        assert(sp.last() == started[n - 1]);
        assert(clear_between_finishes(f)) by {
            assert forall|k1: int, k2: int|
                0 <= k1 < k2 < f.len() && is_finished(#[trigger] f[k1]) && is_finished(
                    #[trigger] f[k2],
                ) implies exists|j: int| k1 < j < k2 && is_clear(#[trigger] f[j]) by {
                if k2 < fp.len() {
                    let j = choose|j: int| k1 < j < k2 && is_clear(#[trigger] fp[j]);
                    assert(f[j] == fp[j]);
                } else if k1 >= fp.len() {
                    assert(is_finished(last[k1 - fp.len()]) && is_finished(last[k2 - fp.len()]));
                    assert(false);
                } else {
                    // a finish in the last step means the engine was started
                    assert(is_finished(last[k2 - fp.len()]));
                    assert(started[n - 1]);
                    assert(started_covered(true, fp));
                    let j = choose|j: int| k1 < j < fp.len() && is_clear(#[trigger] fp[j]);
                    assert(f[j] == fp[j]);
                    assert(k1 < j < k2);
                }
            }
        }
        assert(started_covered(started.last(), f)) by {
            if started[n as int] {
                if no_finish(last) && started[n - 1] {
                    assert forall|k: int|
                        0 <= k < f.len() && is_finished(#[trigger] f[k]) implies exists|j: int|
                        k < j < f.len() && is_clear(#[trigger] f[j]) by {
                        if k < fp.len() {
                            assert(is_finished(fp[k]));
                            let j = choose|j: int| k < j < fp.len() && is_clear(#[trigger] fp[j]);
                            assert(f[j] == fp[j]);
                        } else {
                            assert(is_finished(last[k - fp.len()]));
                            assert(false);
                        }
                    }
                } else {
                    assert(clear_covers_finish(last));
                    let jl = choose|jl: int|
                        0 <= jl < last.len() && is_clear(#[trigger] last[jl]) && forall|k: int|
                            0 <= k < last.len() && is_finished(#[trigger] last[k]) ==> k < jl;
                    let j = fp.len() + jl;
                    assert(f[j] == last[jl]);
                    assert forall|k: int|
                        0 <= k < f.len() && is_finished(#[trigger] f[k]) implies exists|j2: int|
                        k < j2 < f.len() && is_clear(#[trigger] f[j2]) by {
                        if k < fp.len() {
                            assert(k < j < f.len() && is_clear(f[j]));
                        } else {
                            assert(is_finished(last[k - fp.len()]));
                            assert(k - fp.len() < jl);
                            assert(k < j < f.len() && is_clear(f[j]));
                        }
                    }
                }
            }
        }
    }
}

/// Threading the `add_before` count through a run step by step gives the
/// same count as over the whole event stream at once.
pub proof fn lemma_count_append(e0: int, a: Seq<ShotEvent>, b: Seq<ShotEvent>)
    ensures
        count_since_clear(e0, a.add(b)) == count_since_clear(count_since_clear(e0, a), b),
    decreases b.len(),
{
    if b.len() == 0 {
        assert(a.add(b) =~= a);
    } else {
        lemma_count_append(e0, a, b.drop_last());
        assert(a.add(b).drop_last() =~= a.add(b.drop_last()));
        assert(a.add(b).last() == b.last());
    }
}

/// Law: the engine's `emitted_before` counter equals the number of
/// `add_before` events after the last `clear_trace` of the whole run's
/// event stream, for any run whose steps thread the counter as `step`
/// guarantees.
pub proof fn lemma_emitted_before_is_trace_count(counts: Seq<int>, ess: Seq<Seq<ShotEvent>>)
    requires
        counts.len() == ess.len() + 1,
        forall|i: int|
            0 <= i < ess.len() ==> counts[i + 1] == count_since_clear(counts[i], #[trigger] ess[i]),
    ensures
        counts.last() == count_since_clear(counts[0], flat(ess)),
    decreases ess.len(),
{
    if ess.len() == 0 {
        assert(flat(ess) =~= Seq::<ShotEvent>::empty());
    } else {
        let n = ess.len();
        let prefix = ess.drop_last();
        let cp = counts.subrange(0, n as int);
        assert(forall|i: int|
            0 <= i < prefix.len() ==> cp[i + 1] == count_since_clear(cp[i], #[trigger] prefix[i]));
        lemma_emitted_before_is_trace_count(cp, prefix);
        assert(cp.last() == counts[n - 1]);
        lemma_count_append(counts[0], flat(prefix), ess.last());
        assert(flat(ess) == flat(prefix).add(ess.last()));
        assert(counts[n as int] == count_since_clear(counts[n - 1], ess.last()));
    }
}

} // verus!
