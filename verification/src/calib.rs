//! Calibration: consumes blob positions during an aiming period and, once
//! the shooter fires, selects the steadiest one-second window of the
//! positional history as the calibration point.

use vstd::prelude::*;

use crate::num::{isqrt, sqrt_floor};
use crate::types::{Keypoint, MAX_COORD_MPX, MAX_TIME_MS};

verus! {

/// Upper bound accepted for the number of samples in a calibration trace.
pub const MAX_CALIB_SAMPLES: usize = 10_000_000;

/// Milliseconds a candidate window must at least span.
pub const WINDOW_MIN_MS: i64 = 1_000;

/// Milliseconds a candidate window must stay under.
pub const WINDOW_MAX_MS: i64 = 1_100;

/// One positional sample of the calibration trace: raw pixel position in
/// millipixels and time in milliseconds since calibration start.
#[derive(Clone, Copy, Debug, PartialEq, Eq, Structural)]
pub struct CalibSample {
    pub x_mpx: i64,
    pub y_mpx: i64,
    pub time_ms: i64,
}

impl CalibSample {
    /// Coordinates and time within the accepted ranges.
    pub open spec fn wf(self) -> bool {
        &&& 0 <= self.x_mpx <= MAX_COORD_MPX
        &&& 0 <= self.y_mpx <= MAX_COORD_MPX
        &&& 0 <= self.time_ms <= MAX_TIME_MS
    }
}

/// Sum of the x coordinates of the samples.
pub open spec fn sum_x(pts: Seq<CalibSample>) -> int
    decreases pts.len(),
{
    if pts.len() == 0 {
        0
    } else {
        sum_x(pts.drop_last()) + pts.last().x_mpx
    }
}

/// Sum of the y coordinates of the samples.
pub open spec fn sum_y(pts: Seq<CalibSample>) -> int
    decreases pts.len(),
{
    if pts.len() == 0 {
        0
    } else {
        sum_y(pts.drop_last()) + pts.last().y_mpx
    }
}

/// x of the centroid of a non-empty window: the mean x, rounded down.
pub open spec fn centroid_x(pts: Seq<CalibSample>) -> int {
    sum_x(pts) / pts.len() as int
}

/// y of the centroid of a non-empty window: the mean y, rounded down.
pub open spec fn centroid_y(pts: Seq<CalibSample>) -> int {
    sum_y(pts) / pts.len() as int
}

/// Distance of a sample to a point, as the floor square root of the squared
/// Euclidean distance in millipixels.
pub open spec fn dist_to(p: CalibSample, cx: int, cy: int) -> nat {
    sqrt_floor((((p.x_mpx - cx) * (p.x_mpx - cx)) + ((p.y_mpx - cy) * (p.y_mpx - cy))) as nat)
}

/// Sum of the distances of the samples to a point.
pub open spec fn dist_sum(pts: Seq<CalibSample>, cx: int, cy: int) -> nat
    decreases pts.len(),
{
    if pts.len() == 0 {
        0
    } else {
        dist_sum(pts.drop_last(), cx, cy) + dist_to(pts.last(), cx, cy)
    }
}

/// The samples of a candidate window: `w` is a pair of indices into the
/// reverse-chronological trace, the window holding positions `w.0`
/// (inclusive, the newest) to `w.1` (exclusive, just past the oldest).
pub open spec fn win(rev: Seq<CalibSample>, w: (int, int)) -> Seq<CalibSample> {
    rev.subrange(w.0, w.1)
}

/// Number of samples of a candidate window.
pub open spec fn win_n(rev: Seq<CalibSample>, w: (int, int)) -> nat {
    (w.1 - w.0) as nat
}

/// Sum of the radial deviations of a window's samples from its centroid.
pub open spec fn win_dist_sum(rev: Seq<CalibSample>, w: (int, int)) -> nat {
    dist_sum(win(rev, w), centroid_x(win(rev, w)), centroid_y(win(rev, w)))
}

/// Window `a` is strictly steadier than window `b`: its mean radial
/// deviation is smaller, compared exactly by cross-multiplication.
pub open spec fn steadier(rev: Seq<CalibSample>, a: (int, int), b: (int, int)) -> bool {
    win_dist_sum(rev, a) * win_n(rev, b) < win_dist_sum(rev, b) * win_n(rev, a)
}

/// The bucket that began at position `start` of the reversed trace becomes
/// a candidate at position `i`: the duration between its newest sample and
/// the sample at `i` exceeds one second but stays under 1.1 seconds.
pub open spec fn in_window_span(rev: Seq<CalibSample>, start: int, i: int) -> bool {
    WINDOW_MIN_MS < rev[start].time_ms - rev[i].time_ms < WINDOW_MAX_MS
}

/// All candidate windows of the newest-to-oldest scan from position `i` on,
/// the current bucket having started at position `start`: whenever the
/// bucket spans the one-second range, it is recorded and the scan restarts
/// just past the current sample.
pub open spec fn scan_wins(rev: Seq<CalibSample>, i: int, start: int) -> Seq<(int, int)>
    decreases rev.len() - i,
{
    if i >= rev.len() {
        Seq::empty()
    } else if i == start {
        scan_wins(rev, i + 1, start)
    } else if in_window_span(rev, start, i) {
        seq![(start, i)].add(scan_wins(rev, i + 1, i + 1))
    } else {
        scan_wins(rev, i + 1, start)
    }
}

/// The best candidate window of the scan from position `i` on: a later
/// candidate replaces the held one only when strictly steadier, so the
/// first of equally steady windows wins.
pub open spec fn scan_best(
    rev: Seq<CalibSample>,
    i: int,
    start: int,
    best: Option<(int, int)>,
) -> Option<(int, int)>
    decreases rev.len() - i,
{
    if i >= rev.len() {
        best
    } else if i == start {
        scan_best(rev, i + 1, start, best)
    } else if in_window_span(rev, start, i) {
        let cand = (start, i);
        let best2 = match best {
            None => Some(cand),
            Some(b) => if steadier(rev, cand, b) {
                Some(cand)
            } else {
                Some(b)
            },
        };
        scan_best(rev, i + 1, i + 1, best2)
    } else {
        scan_best(rev, i + 1, start, best)
    }
}

/// The calibration point selected from a trace: the centroid of the
/// steadiest candidate window of the newest-to-oldest scan, or nothing
/// when no bucket ever spanned the one-second range.
pub open spec fn calibrate_spec(trace: Seq<CalibSample>) -> Option<(int, int)> {
    let rev = trace.reverse();
    match scan_best(rev, 0, 0, None) {
        None => None,
        Some(w) => Some((centroid_x(win(rev, w)), centroid_y(win(rev, w)))),
    }
}

proof fn lemma_sum_bounds(pts: Seq<CalibSample>)
    requires
        forall|k: int| 0 <= k < pts.len() ==> #[trigger] pts[k].wf(),
    ensures
        0 <= sum_x(pts) <= pts.len() * MAX_COORD_MPX,
        0 <= sum_y(pts) <= pts.len() * MAX_COORD_MPX,
    decreases pts.len(),
{
    if pts.len() == 0 {
    } else {
        assert(forall|k: int|
            0 <= k < pts.drop_last().len() ==> #[trigger] pts.drop_last()[k] == pts[k]);
        lemma_sum_bounds(pts.drop_last());
        assert(pts.last() == pts[pts.len() - 1]);
        assert(pts[pts.len() - 1].wf());
        assert(pts.len() * MAX_COORD_MPX == pts.drop_last().len() * MAX_COORD_MPX + MAX_COORD_MPX)
            by (nonlinear_arith)
            requires pts.len() >= 1 && pts.drop_last().len() == pts.len() - 1;
    }
}

proof fn lemma_centroid_bounds(pts: Seq<CalibSample>)
    requires
        pts.len() > 0,
        forall|k: int| 0 <= k < pts.len() ==> #[trigger] pts[k].wf(),
    ensures
        0 <= centroid_x(pts) <= MAX_COORD_MPX,
        0 <= centroid_y(pts) <= MAX_COORD_MPX,
{
    lemma_sum_bounds(pts);
    assert(0 <= sum_x(pts) / pts.len() as int <= MAX_COORD_MPX) by (nonlinear_arith)
        requires
            pts.len() >= 1,
            0 <= sum_x(pts) <= pts.len() * MAX_COORD_MPX,
    ;
    assert(0 <= sum_y(pts) / pts.len() as int <= MAX_COORD_MPX) by (nonlinear_arith)
        requires
            pts.len() >= 1,
            0 <= sum_y(pts) <= pts.len() * MAX_COORD_MPX,
    ;
}

proof fn lemma_dist_sum_bound(pts: Seq<CalibSample>, cx: int, cy: int)
    requires
        forall|k: int| 0 <= k < pts.len() ==> #[trigger] pts[k].wf(),
        0 <= cx <= MAX_COORD_MPX,
        0 <= cy <= MAX_COORD_MPX,
    ensures
        dist_sum(pts, cx, cy) <= pts.len() * 150_000_000,
    decreases pts.len(),
{
    if pts.len() == 0 {
    } else {
        assert(forall|k: int|
            0 <= k < pts.drop_last().len() ==> #[trigger] pts.drop_last()[k] == pts[k]);
        lemma_dist_sum_bound(pts.drop_last(), cx, cy);
        let p = pts.last();
        assert(p == pts[pts.len() - 1]);
        assert(p.wf());
        let sq = (((p.x_mpx - cx) * (p.x_mpx - cx)) + ((p.y_mpx - cy) * (p.y_mpx - cy))) as nat;
        assert(sq <= 20_000_000_000_000_000) by (nonlinear_arith)
            requires
                -MAX_COORD_MPX <= p.x_mpx - cx <= MAX_COORD_MPX,
                -MAX_COORD_MPX <= p.y_mpx - cy <= MAX_COORD_MPX,
                sq == (((p.x_mpx - cx) * (p.x_mpx - cx)) + ((p.y_mpx - cy) * (p.y_mpx - cy))) as nat,
        ;
        assert(dist_to(p, cx, cy) <= 150_000_000) by {
            crate::num::lemma_sqrt_floor_exists(sq);
            let d = dist_to(p, cx, cy);
            assert(d * d <= sq);
            if d > 150_000_000 {
                assert(d * d > 150_000_000 * 150_000_000) by (nonlinear_arith)
                    requires d > 150_000_000;
            }
        }
        assert(pts.len() * 150_000_000 == pts.drop_last().len() * 150_000_000 + 150_000_000)
            by (nonlinear_arith)
            requires pts.len() >= 1 && pts.drop_last().len() == pts.len() - 1;
    }
}

/// Centroid and summed radial deviation of the candidate window
/// `[start, end)` of the reversed trace.
fn window_stats(trace: &Vec<CalibSample>, start: usize, end: usize) -> (r: (i64, i64, u64, u64))
    requires
        trace@.len() <= MAX_CALIB_SAMPLES,
        forall|k: int| 0 <= k < trace@.len() ==> #[trigger] trace@[k].wf(),
        start < end <= trace@.len(),
    ensures
        ({
            let pts = win(trace@.reverse(), (start as int, end as int));
            &&& r.0 == centroid_x(pts)
            &&& r.1 == centroid_y(pts)
            &&& r.2 == win_dist_sum(trace@.reverse(), (start as int, end as int))
            &&& r.3 == end - start
            &&& r.2 <= (end - start) * 150_000_000
        }),
{
    let n: usize = trace.len();
    let ghost rev = trace@.reverse();
    let ghost pts = rev.subrange(start as int, end as int);
    proof {
        assert(rev.len() == n);
        assert(forall|k: int| 0 <= k < pts.len() ==> #[trigger] pts[k] == rev[start + k]);
        assert(forall|k: int| 0 <= k < rev.len() ==> #[trigger] rev[k] == trace@[n - 1 - k]);
        assert(forall|k: int| 0 <= k < pts.len() ==> #[trigger] pts[k].wf());
    }
    let cnt: usize = end - start;
    let mut sx: i64 = 0;
    let mut sy: i64 = 0;
    let mut j: usize = start;
    while j < end
        invariant
            start <= j <= end <= n == trace@.len() <= MAX_CALIB_SAMPLES,
            start < end,
            rev == trace@.reverse(),
            pts == rev.subrange(start as int, end as int),
            forall|k: int| 0 <= k < trace@.len() ==> #[trigger] trace@[k].wf(),
            forall|k: int| 0 <= k < pts.len() ==> #[trigger] pts[k] == rev[start + k],
            forall|k: int| 0 <= k < rev.len() ==> #[trigger] rev[k] == trace@[n - 1 - k],
            forall|k: int| 0 <= k < pts.len() ==> #[trigger] pts[k].wf(),
            sx == sum_x(pts.subrange(0, j - start)),
            sy == sum_y(pts.subrange(0, j - start)),
            0 <= sx <= (j - start) * MAX_COORD_MPX,
            0 <= sy <= (j - start) * MAX_COORD_MPX,
        decreases end - j,
    {
        let p: CalibSample = trace[n - 1 - j];
        proof {
            let m = j - start;
            assert(pts.subrange(0, m + 1).drop_last() =~= pts.subrange(0, m));
            assert(pts.subrange(0, m + 1).last() == pts[m]);
            assert(pts[m] == rev[j as int]);
            assert(rev[j as int] == trace@[n - 1 - j]);
            assert(trace@[n - 1 - j].wf());
            assert(p.wf());
            assert((m + 1) * MAX_COORD_MPX == m * MAX_COORD_MPX + MAX_COORD_MPX)
                by (nonlinear_arith);
            assert(m * MAX_COORD_MPX <= MAX_CALIB_SAMPLES * MAX_COORD_MPX) by (nonlinear_arith)
                requires 0 <= m <= MAX_CALIB_SAMPLES;
        }
        sx = sx + p.x_mpx;
        sy = sy + p.y_mpx;
        j = j + 1;
    }
    proof {
        assert(pts.subrange(0, cnt as int) =~= pts);
        lemma_sum_bounds(pts);
    }
    let cx: i64 = ((sx as u64) / (cnt as u64)) as i64;
    let cy: i64 = ((sy as u64) / (cnt as u64)) as i64;
    proof {
        lemma_centroid_bounds(pts);
        assert(cx == centroid_x(pts));
        assert(cy == centroid_y(pts));
    }
    let mut sd: u64 = 0;
    j = start;
    while j < end
        invariant
            start <= j <= end <= n == trace@.len() <= MAX_CALIB_SAMPLES,
            start < end,
            rev == trace@.reverse(),
            pts == rev.subrange(start as int, end as int),
            forall|k: int| 0 <= k < trace@.len() ==> #[trigger] trace@[k].wf(),
            forall|k: int| 0 <= k < pts.len() ==> #[trigger] pts[k] == rev[start + k],
            forall|k: int| 0 <= k < rev.len() ==> #[trigger] rev[k] == trace@[n - 1 - k],
            forall|k: int| 0 <= k < pts.len() ==> #[trigger] pts[k].wf(),
            0 <= cx <= MAX_COORD_MPX,
            0 <= cy <= MAX_COORD_MPX,
            sd == dist_sum(pts.subrange(0, j - start), cx as int, cy as int),
            sd <= (j - start) * 150_000_000,
        decreases end - j,
    {
        let p: CalibSample = trace[n - 1 - j];
        proof {
            let m = j - start;
            assert(pts[m] == rev[j as int]);
            assert(pts[m].wf());
        }
        let dx: i64 = p.x_mpx - cx;
        let dy: i64 = p.y_mpx - cy;
        proof {
            assert(dx * dx + dy * dy <= 20_000_000_000_000_000) by (nonlinear_arith)
                requires
                    -MAX_COORD_MPX <= dx <= MAX_COORD_MPX,
                    -MAX_COORD_MPX <= dy <= MAX_COORD_MPX,
            ;
            assert(dx * dx >= 0) by (nonlinear_arith);
            assert(dy * dy >= 0) by (nonlinear_arith);
        }
        let sq: u64 = (dx * dx + dy * dy) as u64;
        let d: u64 = isqrt(sq);
        proof {
            let m = j - start;
            assert(d == dist_to(pts[m], cx as int, cy as int));
            assert(d <= 150_000_000) by {
                assert(d * d <= sq);
                if d > 150_000_000 {
                    assert(d * d > 150_000_000 * 150_000_000) by (nonlinear_arith)
                        requires d > 150_000_000;
                }
            }
            assert(pts.subrange(0, m + 1).drop_last() =~= pts.subrange(0, m));
            assert(pts.subrange(0, m + 1).last() == pts[m]);
            assert((m + 1) * 150_000_000 == m * 150_000_000 + 150_000_000) by (nonlinear_arith);
            assert(m * 150_000_000 <= MAX_CALIB_SAMPLES * 150_000_000) by (nonlinear_arith)
                requires 0 <= m <= MAX_CALIB_SAMPLES;
        }
        sd = sd + d;
        j = j + 1;
    }
    proof {
        assert(pts.subrange(0, cnt as int) =~= pts);
    }
    (cx, cy, sd, cnt as u64)
}

/// Selects the calibration point from a positional trace: iterates the
/// trace from newest to oldest, gathers contiguous buckets, and of every
/// bucket that spans the one-second range keeps the one with the smallest
/// mean radial deviation from its centroid; returns that bucket's centroid.
pub fn select_calibration_point(trace: &Vec<CalibSample>) -> (r: Option<(i64, i64)>)
    requires
        trace@.len() <= MAX_CALIB_SAMPLES,
        forall|k: int| 0 <= k < trace@.len() ==> #[trigger] trace@[k].wf(),
    ensures
        match calibrate_spec(trace@) {
            None => r is None,
            Some(c) => r == Some((c.0 as i64, c.1 as i64)) && 0 <= c.0 <= MAX_COORD_MPX && 0
                <= c.1 <= MAX_COORD_MPX,
        },
{
    let n: usize = trace.len();
    let ghost rev = trace@.reverse();
    proof {
        assert(rev.len() == n);
        assert(forall|k: int| 0 <= k < rev.len() ==> #[trigger] rev[k] == trace@[n - 1 - k]);
        assert(forall|k: int| 0 <= k < rev.len() ==> #[trigger] rev[k].wf()) by {
            assert(forall|k: int|
                0 <= k < rev.len() ==> #[trigger] rev[k] == trace@[n - 1 - k]
                    && trace@[n - 1 - k].wf());
        }
    }
    let mut i: usize = 0;
    let mut start: usize = 0;
    let mut has_best: bool = false;
    let mut best_s: usize = 0;
    let mut best_e: usize = 0;
    let mut best_cx: i64 = 0;
    let mut best_cy: i64 = 0;
    let mut best_sum: u64 = 0;
    let mut best_n: u64 = 0;
    while i < n
        invariant
            0 <= start <= i <= n == trace@.len() <= MAX_CALIB_SAMPLES,
            rev == trace@.reverse(),
            forall|k: int| 0 <= k < trace@.len() ==> #[trigger] trace@[k].wf(),
            forall|k: int| 0 <= k < rev.len() ==> #[trigger] rev[k] == trace@[n - 1 - k],
            scan_best(
                rev,
                i as int,
                start as int,
                if has_best {
                    Some((best_s as int, best_e as int))
                } else {
                    None
                },
            ) == scan_best(rev, 0, 0, None),
            has_best ==> {
                let b = (best_s as int, best_e as int);
                &&& best_s < best_e <= n
                &&& best_cx == centroid_x(win(rev, b))
                &&& best_cy == centroid_y(win(rev, b))
                &&& best_sum == win_dist_sum(rev, b)
                &&& best_n == win_n(rev, b)
                &&& best_n <= MAX_CALIB_SAMPLES
                &&& best_sum <= best_n * 150_000_000
            },
        decreases n - i,
    {
        let ghost bm: Option<(int, int)> = if has_best {
            Some((best_s as int, best_e as int))
        } else {
            None
        };
        if i == start {
            proof {
                assert(scan_best(rev, i as int, start as int, bm) == scan_best(
                    rev,
                    i + 1,
                    start as int,
                    bm,
                ));
            }
            i = i + 1;
        } else {
            let t_new: i64 = trace[n - 1 - start].time_ms;
            let t_cur: i64 = trace[n - 1 - i].time_ms;
            proof {
                assert(rev[start as int] == trace@[n - 1 - start]);
                assert(rev[i as int] == trace@[n - 1 - i]);
                assert(trace@[n - 1 - start].wf());
                assert(trace@[n - 1 - i].wf());
            }
            let duration: i64 = t_new - t_cur;
            if WINDOW_MIN_MS < duration && duration < WINDOW_MAX_MS {
                proof {
                    assert(in_window_span(rev, start as int, i as int));
                }
                let stats: (i64, i64, u64, u64) = window_stats(trace, start, i);
                proof {
                    assert(stats.2 <= (i - start) * 150_000_000);
                    assert((i - start) * 150_000_000 <= MAX_CALIB_SAMPLES as int * 150_000_000)
                        by (nonlinear_arith)
                        requires 0 <= i - start <= MAX_CALIB_SAMPLES as int;
                    if has_best {
                        assert(best_sum <= best_n * 150_000_000);
                        assert(best_n * 150_000_000 <= MAX_CALIB_SAMPLES as int * 150_000_000)
                            by (nonlinear_arith)
                            requires 0 <= best_n <= MAX_CALIB_SAMPLES as int;
                        assert((stats.2 as int) * (best_n as int) <= 1_500_000_000_000_000
                            * 10_000_000) by (nonlinear_arith)
                            requires
                                0 <= stats.2 <= 1_500_000_000_000_000,
                                0 <= best_n <= 10_000_000,
                        ;
                        assert((best_sum as int) * (stats.3 as int) <= 1_500_000_000_000_000
                            * 10_000_000) by (nonlinear_arith)
                            requires
                                0 <= best_sum <= 1_500_000_000_000_000,
                                0 <= stats.3 <= 10_000_000,
                        ;
                    }
                }
                let take: bool = if !has_best {
                    true
                } else {
                    (stats.2 as u128) * (best_n as u128) < (best_sum as u128) * (stats.3 as u128)
                };
                proof {
                    let cand = (start as int, i as int);
                    if has_best {
                        let b = (best_s as int, best_e as int);
                        assert(take == steadier(rev, cand, b));
                    }
                    let best2: Option<(int, int)> = match bm {
                        None => Some(cand),
                        Some(b) => if steadier(rev, cand, b) {
                            Some(cand)
                        } else {
                            Some(b)
                        },
                    };
                    assert(scan_best(rev, i as int, start as int, bm) == scan_best(
                        rev,
                        i + 1,
                        i + 1,
                        best2,
                    ));
                }
                if take {
                    best_s = start;
                    best_e = i;
                    best_cx = stats.0;
                    best_cy = stats.1;
                    best_sum = stats.2;
                    best_n = stats.3;
                    has_best = true;
                }
                start = i + 1;
                i = i + 1;
            } else {
                proof {
                    assert(!in_window_span(rev, start as int, i as int));
                    assert(scan_best(rev, i as int, start as int, bm) == scan_best(
                        rev,
                        i + 1,
                        start as int,
                        bm,
                    ));
                }
                i = i + 1;
            }
        }
    }
    proof {
        let bm: Option<(int, int)> = if has_best {
            Some((best_s as int, best_e as int))
        } else {
            None
        };
        assert(scan_best(rev, n as int, start as int, bm) == bm);
        if has_best {
            let b = (best_s as int, best_e as int);
            lemma_centroid_bounds(win(rev, b));
        }
    }
    if has_best {
        Some((best_cx, best_cy))
    } else {
        None
    }
}

proof fn lemma_steadier_trans(rev: Seq<CalibSample>, a: (int, int), b: (int, int), c: (int, int))
    requires
        win_n(rev, a) >= 1,
        win_n(rev, b) >= 1,
        win_n(rev, c) >= 1,
        steadier(rev, a, b),
        steadier(rev, b, c),
    ensures
        steadier(rev, a, c),
{
    let sa = win_dist_sum(rev, a);
    let na = win_n(rev, a);
    let sb = win_dist_sum(rev, b);
    let nb = win_n(rev, b);
    let sc = win_dist_sum(rev, c);
    let nc = win_n(rev, c);
    assert(sa * nc < sc * na) by (nonlinear_arith)
        requires
            na >= 1,
            nb >= 1,
            nc >= 1,
            sa * nb < sb * na,
            sb * nc < sc * nb,
    ;
}

/// Every candidate window of the scan lies within the reversed trace, is
/// non-empty, and became a candidate because the duration from its newest
/// sample to the sample just past its oldest end spans the one-second range.
pub proof fn lemma_scan_wins_shape(rev: Seq<CalibSample>, i: int, start: int, w: (int, int))
    requires
        0 <= start <= i <= rev.len(),
        scan_wins(rev, i, start).contains(w),
    ensures
        0 <= w.0 < w.1 < rev.len(),
        in_window_span(rev, w.0, w.1),
    decreases rev.len() - i,
{
    if i >= rev.len() {
    } else if i == start {
        lemma_scan_wins_shape(rev, i + 1, start, w);
    } else if in_window_span(rev, start, i) {
        let rest = scan_wins(rev, i + 1, i + 1);
        if w == (start, i) {
        } else {
            assert(seq![(start, i)].add(rest)[0] == (start, i));
            let k = choose|k: int|
                0 <= k < seq![(start, i)].add(rest).len() && seq![(start, i)].add(rest)[k] == w;
            assert(rest[k - 1] == w);
            assert(rest.contains(w));
            lemma_scan_wins_shape(rev, i + 1, i + 1, w);
        }
    } else {
        lemma_scan_wins_shape(rev, i + 1, start, w);
    }
}

/// The result of `scan_best` is sound: it is the held best or one of the
/// candidate windows seen from here, no candidate seen from here is
/// strictly steadier, and it only replaced the held best by being strictly
/// steadier.
spec fn scan_best_ok(
    rev: Seq<CalibSample>,
    i: int,
    start: int,
    best: Option<(int, int)>,
    r: Option<(int, int)>,
) -> bool {
    match r {
        None => best is None && scan_wins(rev, i, start).len() == 0,
        Some(w) => {
            &&& 0 <= w.0 < w.1
            &&& match best {
                Some(b) => w == b || scan_wins(rev, i, start).contains(w),
                None => scan_wins(rev, i, start).contains(w),
            }
            &&& forall|w2: (int, int)|
                #[trigger] scan_wins(rev, i, start).contains(w2) ==> !steadier(rev, w2, w)
            &&& match best {
                Some(b) => w == b || steadier(rev, w, b),
                None => true,
            }
        },
    }
}

#[verifier::rlimit(60)]
proof fn lemma_scan_best_min(rev: Seq<CalibSample>, i: int, start: int, best: Option<(int, int)>)
    requires
        0 <= start <= i <= rev.len(),
        match best {
            Some(b) => 0 <= b.0 < b.1,
            None => true,
        },
    ensures
        scan_best_ok(rev, i, start, best, scan_best(rev, i, start, best)),
    decreases rev.len() - i,
{
    if i >= rev.len() {
    } else if i == start {
        lemma_scan_best_min(rev, i + 1, start, best);
        assert(scan_best(rev, i, start, best) == scan_best(rev, i + 1, start, best));
        assert(scan_wins(rev, i, start) == scan_wins(rev, i + 1, start));
    } else if in_window_span(rev, start, i) {
        let cand = (start, i);
        let best2 = match best {
            None => Some(cand),
            Some(b) => if steadier(rev, cand, b) {
                Some(cand)
            } else {
                Some(b)
            },
        };
        lemma_scan_best_min(rev, i + 1, i + 1, best2);
        let rest = scan_wins(rev, i + 1, i + 1);
        let ws = seq![cand].add(rest);
        assert(scan_wins(rev, i, start) == ws);
        assert(ws[0] == cand);
        assert(ws.contains(cand));
        let r = scan_best(rev, i, start, best);
        assert(r == scan_best(rev, i + 1, i + 1, best2));
        let w = r->Some_0;
        // membership of w in the windows seen from here
        assert(match best2 {
            Some(b2) => w == b2 || rest.contains(w),
            None => rest.contains(w),
        });
        assert forall|k: int| 0 <= k < rest.len() implies ws.contains(rest[k]) by {
            assert(ws[k + 1] == rest[k]);
        }
        if rest.contains(w) {
            let k = choose|k: int| 0 <= k < rest.len() && rest[k] == w;
            assert(ws[k + 1] == w);
            assert(ws.contains(w));
        }
        // no window seen from here is steadier than w
        assert forall|w2: (int, int)| #[trigger] ws.contains(w2) implies !steadier(rev, w2, w) by {
            let k = choose|k: int| 0 <= k < ws.len() && ws[k] == w2;
            if k == 0 {
                // w2 is the candidate taken here
                assert(w2 == cand);
                let b2 = best2->Some_0;
                assert(w == b2 || steadier(rev, w, b2));
                match best {
                    None => {
                        // best2 is cand itself
                        if w == cand {
                        } else {
                            // steadier(w, cand): asymmetry
                        }
                    },
                    Some(b) => {
                        if steadier(rev, cand, b) {
                            // best2 == cand
                        } else {
                            // best2 == b and !steadier(cand, b)
                            if w == b {
                            } else {
                                // steadier(w, b) and !steadier(cand, b) ==> !steadier(cand, w)
                                if steadier(rev, cand, w) {
                                    lemma_steadier_trans(rev, cand, w, b);
                                }
                            }
                        }
                    },
                }
            } else {
                assert(rest[k - 1] == w2);
                assert(rest.contains(w2));
            }
        }
        // w is the held best or strictly steadier than it
        match best {
            None => {},
            Some(b) => {
                let b2 = best2->Some_0;
                if steadier(rev, cand, b) {
                    assert(b2 == cand);
                    if w == b2 {
                        assert(steadier(rev, w, b));
                    } else {
                        assert(steadier(rev, w, cand));
                        lemma_steadier_trans(rev, w, cand, b);
                    }
                } else {
                    assert(b2 == b);
                }
                assert(w == b || steadier(rev, w, b));
            },
        }
        // membership in the windows seen from this position
        match best {
            None => {
                assert(ws.contains(w));
            },
            Some(b) => {
                if w != b {
                    assert(ws.contains(w));
                }
            },
        }
        assert(r is Some);
        assert(0 <= w.0 < w.1);
        assert(scan_best_ok(rev, i, start, best, r));
    } else {
        lemma_scan_best_min(rev, i + 1, start, best);
        assert(scan_best(rev, i, start, best) == scan_best(rev, i + 1, start, best));
        assert(scan_wins(rev, i, start) == scan_wins(rev, i + 1, start));
    }
}

/// Steadiest-window law: when calibration succeeds, the returned point is
/// the centroid of one of the contiguous candidate windows of the
/// newest-to-oldest scan, its first-to-past-last duration spans the
/// one-second range, and no candidate window of the scan has a strictly
/// smaller mean radial deviation from its centroid.
pub proof fn lemma_calibration_steadiest(trace: Seq<CalibSample>)
    ensures
        match calibrate_spec(trace) {
            None => true,
            Some(c) => exists|w: (int, int)|
                {
                    &&& #[trigger] scan_wins(trace.reverse(), 0, 0).contains(w)
                    &&& 0 <= w.0 < w.1 < trace.len()
                    &&& in_window_span(trace.reverse(), w.0, w.1)
                    &&& c == (
                        centroid_x(win(trace.reverse(), w)),
                        centroid_y(win(trace.reverse(), w)),
                    )
                    &&& forall|w2: (int, int)|
                        #[trigger] scan_wins(trace.reverse(), 0, 0).contains(w2)
                            ==> !steadier(trace.reverse(), w2, w)
                },
        },
{
    let rev = trace.reverse();
    lemma_scan_best_min(rev, 0, 0, None);
    match scan_best(rev, 0, 0, None) {
        None => {},
        Some(w) => {
            lemma_scan_wins_shape(rev, 0, 0, w);
        },
    }
}

/// Milliseconds without a detected target after which calibration fails.
pub const CALIB_DETECT_TIMEOUT_MS: i64 = 60_000;

/// Milliseconds after which calibration fails outright.
pub const CALIB_TOTAL_TIMEOUT_MS: i64 = 120_000;

/// How a calibration run ended.
#[derive(Clone, Copy, Debug, PartialEq, Eq, Structural)]
pub enum CalibOutcome {
    /// The selected calibration point, in millipixels.
    Success { x_mpx: i64, y_mpx: i64 },
    /// The target was not detected for a whole minute.
    NotDetected,
    /// Calibration ran for more than two minutes.
    Timeout,
    /// The shooter fired before a one-second window of samples existed.
    TooQuick,
}

impl CalibOutcome {
    /// The `error_msg` of the `calibration_finished` payload for this
    /// outcome; empty on success.
    pub fn error_message(&self) -> (r: &'static str)
        ensures
            r@ == match *self {
                CalibOutcome::Success { .. } => ""@,
                CalibOutcome::NotDetected => "Target was not detected for 1min"@,
                CalibOutcome::Timeout => "Calibrating for more than 2min - timeout"@,
                CalibOutcome::TooQuick => "Shot too quickly"@,
            },
    {
        match *self {
            CalibOutcome::Success { .. } => "",
            CalibOutcome::NotDetected => "Target was not detected for 1min",
            CalibOutcome::Timeout => "Calibrating for more than 2min - timeout",
            CalibOutcome::TooQuick => "Shot too quickly",
        }
    }

    /// Whether this outcome reports success.
    pub fn is_success(&self) -> (r: bool)
        ensures
            r == (*self matches CalibOutcome::Success { .. }),
    {
        match *self {
            CalibOutcome::Success { .. } => true,
            _ => false,
        }
    }
}

/// What the calibration worker does after a frame: keep grabbing frames,
/// or emit `calibration_finished` with the outcome and stop.
#[derive(Clone, Copy, Debug, PartialEq, Eq, Structural)]
pub enum CalibStep {
    Continue,
    Finished(CalibOutcome),
}

/// The calibration worker's state: how many single-blob frames were
/// processed, when calibration started, and the positional history.
pub struct Calibrator {
    pub frame_index: u64,
    pub start_time_ms: i64,
    pub trace: Vec<CalibSample>,
}

impl Calibrator {
    /// State within the accepted ranges.
    pub open spec fn wf(self) -> bool {
        &&& 0 <= self.start_time_ms <= MAX_TIME_MS
        &&& self.trace@.len() <= MAX_CALIB_SAMPLES
        &&& forall|k: int| 0 <= k < self.trace@.len() ==> #[trigger] self.trace@[k].wf()
    }

    /// A calibrator started at the given time with an empty history.
    pub fn new(start_time_ms: i64) -> (r: Calibrator)
        requires
            0 <= start_time_ms <= MAX_TIME_MS,
        ensures
            r.wf(),
            r.frame_index == 0,
            r.start_time_ms == start_time_ms,
            r.trace@.len() == 0,
    {
        Calibrator { frame_index: 0, start_time_ms, trace: Vec::new() }
    }

    /// Processes one camera frame of the calibration run.
    ///
    /// A frame with zero or several detected blobs contributes no sample:
    /// it only fails the run once the target has been missing for a whole
    /// minute. A single-blob frame first checks the two-minute timeout,
    /// then appends the blob position to the history; if a trigger arrived
    /// with this frame, the steadiest-window selection decides between
    /// success and a too-quick failure.
    pub fn step(&mut self, now_ms: i64, keypoints: &Vec<Keypoint>, trigger: Option<i64>) -> (r:
        CalibStep)
        requires
            old(self).wf(),
            old(self).trace@.len() < MAX_CALIB_SAMPLES,
            old(self).frame_index < u64::MAX,
            old(self).start_time_ms <= now_ms <= MAX_TIME_MS,
            forall|k: int| 0 <= k < keypoints@.len() ==> #[trigger] keypoints@[k].wf(),
        ensures
            final(self).wf(),
            final(self).start_time_ms == old(self).start_time_ms,
            ({
                let elapsed = now_ms - old(self).start_time_ms;
                let detected = keypoints@.len() == 1;
                let time_since = if old(self).frame_index == 0 {
                    0
                } else {
                    elapsed
                };
                if !detected {
                    &&& *final(self) == *old(self)
                    &&& r == if elapsed >= CALIB_DETECT_TIMEOUT_MS {
                        CalibStep::Finished(CalibOutcome::NotDetected)
                    } else {
                        CalibStep::Continue
                    }
                } else if elapsed >= CALIB_TOTAL_TIMEOUT_MS {
                    &&& *final(self) == *old(self)
                    &&& r == CalibStep::Finished(CalibOutcome::Timeout)
                } else {
                    let sample = CalibSample {
                        x_mpx: keypoints@[0].cx_mpx,
                        y_mpx: keypoints@[0].cy_mpx,
                        time_ms: time_since as i64,
                    };
                    &&& final(self).trace@ == old(self).trace@.push(sample)
                    &&& if trigger is Some {
                        &&& final(self).frame_index == old(self).frame_index
                        &&& r == CalibStep::Finished(
                            match calibrate_spec(final(self).trace@) {
                                Some(c) => CalibOutcome::Success {
                                    x_mpx: c.0 as i64,
                                    y_mpx: c.1 as i64,
                                },
                                None => CalibOutcome::TooQuick,
                            },
                        )
                    } else {
                        &&& final(self).frame_index == old(self).frame_index + 1
                        &&& r == CalibStep::Continue
                    }
                }
            }),
    {
        let elapsed: i64 = now_ms - self.start_time_ms;
        let detected: bool = keypoints.len() == 1;
        let time_since: i64 = if self.frame_index == 0 {
            0
        } else {
            elapsed
        };
        if !detected {
            if elapsed >= CALIB_DETECT_TIMEOUT_MS {
                return CalibStep::Finished(CalibOutcome::NotDetected);
            }
            return CalibStep::Continue;
        }
        if elapsed >= CALIB_TOTAL_TIMEOUT_MS {
            return CalibStep::Finished(CalibOutcome::Timeout);
        }
        let kp: Keypoint = keypoints[0];
        let sample = CalibSample { x_mpx: kp.cx_mpx, y_mpx: kp.cy_mpx, time_ms: time_since };
        proof {
            assert(keypoints@[0].wf());
            assert(sample.wf());
        }
        self.trace.push(sample);
        proof {
            assert forall|k: int| 0 <= k < self.trace@.len() implies #[trigger] self.trace@[k].wf()
                by {
                if k < old(self).trace@.len() {
                    assert(self.trace@[k] == old(self).trace@[k]);
                } else {
                    assert(self.trace@[k] == sample);
                }
            }
        }
        if trigger.is_some() {
            let selected: Option<(i64, i64)> = select_calibration_point(&self.trace);
            match selected {
                Some(c) => CalibStep::Finished(CalibOutcome::Success { x_mpx: c.0, y_mpx: c.1 }),
                None => CalibStep::Finished(CalibOutcome::TooQuick),
            }
        } else {
            self.frame_index = self.frame_index + 1;
            CalibStep::Continue
        }
    }
}

} // verus!
