//! Natural cubic spline over six samples, in exact rational arithmetic:
//! the impact-point estimator builds one spline for x and one for y over
//! the three trace points before and after the trigger and evaluates them
//! at the trigger instant.

use vstd::prelude::*;

use crate::rat::{
    add_spec, div_spec, from_frac_spec, lemma_q_add_cong, lemma_q_eqv_trans, lemma_q_floor_eqv,
    lemma_q_mul_cong, mul_spec, q_add, q_eqv, q_int, q_mul, sub_spec, Rat,
};
use crate::types::{TracePoint, MAX_TIME_MS, MAX_VALUE_UM};

verus! {

/// Knot times: six of them, strictly increasing, within the accepted time
/// range.
pub open spec fn ts_wf(ts: Seq<i64>) -> bool {
    &&& ts.len() == 6
    &&& forall|i: int, j: int| 0 <= i < j < 6 ==> #[trigger] ts[i] < #[trigger] ts[j]
    &&& 0 <= ts[0]
    &&& ts[5] <= MAX_TIME_MS
}

/// Knot values: six of them, within the accepted magnitude.
pub open spec fn ys_wf(ys: Seq<i64>) -> bool {
    &&& ys.len() == 6
    &&& forall|i: int| 0 <= i < 6 ==> -MAX_VALUE_UM <= #[trigger] ys[i] <= MAX_VALUE_UM
}

/// The index of the spline segment evaluated at time `t`: the first
/// segment whose right knot is at or past `t`, the last segment for any
/// later time.
pub open spec fn seg_idx(ts: Seq<i64>, t: int) -> int {
    if t <= ts[1] {
        0
    } else if t <= ts[2] {
        1
    } else if t <= ts[3] {
        2
    } else if t <= ts[4] {
        3
    } else {
        4
    }
}

/// The spline segment `i` evaluated at `t`, as an exact fraction: the
/// linear interpolant of the two knots plus one cubic correction term per
/// knot moment; each correction vanishes at both knots.
pub open spec fn eval_pair(
    ts: Seq<i64>,
    ys: Seq<i64>,
    m_i: (int, int),
    m_i1: (int, int),
    t: int,
    i: int,
) -> (int, int) {
    let ti = ts[i] as int;
    let ti1 = ts[i + 1] as int;
    let u = ti1 - t;
    let v = t - ti;
    let h = ti1 - ti;
    let term1 = (ys[i] * u + ys[i + 1] * v, h);
    let term2 = q_mul(m_i, (u * (u * u - h * h), 6 * h));
    let term3 = q_mul(m_i1, (v * (v * v - h * h), 6 * h));
    q_add(q_add(term1, term2), term3)
}

/// The spline through the six knots, with the given second-derivative
/// moments, evaluated at `t`, as an exact fraction.
pub open spec fn spline_value(ts: Seq<i64>, ys: Seq<i64>, moments: Seq<(int, int)>, t: int) -> (
    int,
    int,
) {
    let i = seg_idx(ts, t);
    eval_pair(ts, ys, moments[i], moments[i + 1], t, i)
}

/// All six moments are fractions with positive denominators.
pub open spec fn moments_wf(moments: Seq<(int, int)>) -> bool {
    &&& moments.len() == 6
    &&& forall|i: int| 0 <= i < 6 ==> #[trigger] moments[i].1 > 0
}

proof fn lemma_q_add_zero(a: (int, int), z: (int, int))
    requires
        a.1 > 0,
        z.1 > 0,
        z.0 == 0,
    ensures
        q_eqv(q_add(a, z), a),
        q_add(a, z).1 > 0,
{
    assert((a.0 * z.1 + 0 * a.1) * a.1 == a.0 * (a.1 * z.1)) by (nonlinear_arith);
    assert(a.1 * z.1 > 0) by (nonlinear_arith)
        requires
            a.1 > 0,
            z.1 > 0,
    ;
}

/// Through-the-knots law: whatever the moments, the spline's exact value
/// at each of the six knot times is the knot value itself, because the
/// cubic correction terms carry a factor that vanishes at both ends of
/// every segment.
pub proof fn lemma_spline_through_knots(
    ts: Seq<i64>,
    ys: Seq<i64>,
    moments: Seq<(int, int)>,
    k: int,
)
    requires
        ts_wf(ts),
        ys.len() == 6,
        moments_wf(moments),
        0 <= k < 6,
    ensures
        q_eqv(spline_value(ts, ys, moments, ts[k] as int), q_int(ys[k] as int)),
{
    let t = ts[k] as int;
    let i = seg_idx(ts, t);
    if k == 0 {
        assert(ts[0] < ts[1]);
        assert(i == 0);
    } else {
        assert(forall|a: int, b: int| 0 <= a < b < 6 ==> #[trigger] ts[a] < #[trigger] ts[b]);
        assert(i == k - 1);
    }
    let ti = ts[i] as int;
    let ti1 = ts[i + 1] as int;
    let u = ti1 - t;
    let v = t - ti;
    let h = ti1 - ti;
    assert(h > 0);
    let m_i = moments[i];
    let m_i1 = moments[i + 1];
    let term1 = (ys[i] * u + ys[i + 1] * v, h);
    let term2 = q_mul(m_i, (u * (u * u - h * h), 6 * h));
    let term3 = q_mul(m_i1, (v * (v * v - h * h), 6 * h));
    assert(term2.1 > 0 && term3.1 > 0) by (nonlinear_arith)
        requires
            h > 0,
            m_i.1 > 0,
            m_i1.1 > 0,
            term2.1 == m_i.1 * (6 * h),
            term3.1 == m_i1.1 * (6 * h),
    ;
    if k == 0 {
        // left knot of segment 0: u == h, v == 0
        assert(term2.0 == 0) by (nonlinear_arith)
            requires
                u == h,
                term2.0 == m_i.0 * (u * (u * u - h * h)),
        ;
        assert(term3.0 == 0) by (nonlinear_arith)
            requires
                v == 0,
                term3.0 == m_i1.0 * (v * (v * v - h * h)),
        ;
        assert(q_eqv(term1, q_int(ys[k] as int))) by (nonlinear_arith)
            requires
                u == h,
                v == 0,
                h > 0,
                term1 == (ys[k] * u + ys[k + 1] * v, h),
        ;
    } else {
        // right knot of segment k - 1: u == 0, v == h
        assert(term2.0 == 0) by (nonlinear_arith)
            requires
                u == 0,
                term2.0 == m_i.0 * (u * (u * u - h * h)),
        ;
        assert(term3.0 == 0) by (nonlinear_arith)
            requires
                v == h,
                term3.0 == m_i1.0 * (v * (v * v - h * h)),
        ;
        assert(q_eqv(term1, q_int(ys[k] as int))) by (nonlinear_arith)
            requires
                u == 0,
                v == h,
                h > 0,
                term1 == (ys[i] * u + ys[k] * v, h),
        ;
    }
    let s1 = q_add(term1, term2);
    let s2 = q_add(s1, term3);
    lemma_q_add_zero(term1, term2);
    lemma_q_add_zero(s1, term3);
    lemma_q_eqv_trans(s2, s1, term1);
    lemma_q_eqv_trans(s2, term1, q_int(ys[k] as int));
}

/// The exact computation of `eval_at`, step by step: the same chain of
/// reduced-fraction operations, ending in the floor of the result.
#[verifier::opaque]
pub open spec fn eval_at_spec(ts: Seq<i64>, ys: Seq<i64>, ms: Seq<Rat>, t: int) -> Option<i64> {
    let i = seg_idx(ts, t);
    let ti = ts[i] as int;
    let ti1 = ts[i + 1] as int;
    let u = ti1 - t;
    let v = t - ti;
    let h = ti1 - ti;
    match from_frac_spec(ys[i] * u + ys[i + 1] * v, h) {
        None => None,
        Some(t1) => 
        match from_frac_spec(u * (u * u - h * h), 6 * h) {
            None => None,
            Some(t2r) => 
            match mul_spec(ms[i], t2r) {
                None => None,
                Some(t2) => 
                match from_frac_spec(v * (v * v - h * h), 6 * h) {
                    None => None,
                    Some(t3r) => 
                    match mul_spec(ms[i + 1], t3r) {
                        None => None,
                        Some(t3) => 
                        match add_spec(t1, t2) {
                            None => None,
                            Some(s1) => 
                            match add_spec(s1, t3) {
                                None => None,
                                Some(s2) => 
                                Some((s2.num as int / s2.den as int) as i64),
                            }
                        }
                    }
                }
            }
        }
    }
}

/// Evaluates the spline through the six knots with the given moments at
/// time `t`, returning the floor of the exact rational value, or nothing
/// when an intermediate fraction cannot be represented.
pub fn eval_at(ts: &[i64; 6], ys: &[i64; 6], ms: &[Rat; 6], t: i64) -> (r: Option<i64>)
    requires
        ts_wf(ts@),
        ys_wf(ys@),
        forall|i: int| 0 <= i < 6 ==> #[trigger] ms@[i].wf(),
        0 <= t <= MAX_TIME_MS,
    ensures
        r matches Some(x) ==> ({
            let sv = spline_value(ts@, ys@, ms@.map_values(|m: Rat| m.q()), t as int);
            x == sv.0 / sv.1
        }),
        r == eval_at_spec(ts@, ys@, ms@, t as int),
{
    proof {
        reveal(eval_at_spec);
    }
    let ghost mq = ms@.map_values(|m: Rat| m.q());
    let i: usize = if t <= ts[1] {
        0
    } else if t <= ts[2] {
        1
    } else if t <= ts[3] {
        2
    } else if t <= ts[4] {
        3
    } else {
        4
    };
    proof {
        assert(i as int == seg_idx(ts@, t as int));
        assert(forall|a: int, b: int| 0 <= a < b < 6 ==> #[trigger] ts@[a] < #[trigger] ts@[b]);
        assert(ts@[0] <= ts@[i as int] && ts@[i + 1] <= ts@[5]);
    }
    let ti: i64 = ts[i];
    let ti1: i64 = ts[i + 1];
    let u: i64 = ti1 - t;
    let v: i64 = t - ti;
    let h: i64 = ti1 - ti;
    proof {
        assert(h > 0);
        assert(-MAX_TIME_MS <= u <= MAX_TIME_MS);
        assert(-MAX_TIME_MS <= v <= MAX_TIME_MS);
        assert(h <= MAX_TIME_MS);
        assert(-MAX_VALUE_UM <= ys@[i as int] <= MAX_VALUE_UM);
        assert(-MAX_VALUE_UM <= ys@[i + 1] <= MAX_VALUE_UM);
        lemma_knot_products_fit(ys@[i as int] as int, ys@[i + 1] as int, u as int, v as int,
            h as int);
    }
    let num1: i128 = (ys[i] as i128) * (u as i128) + (ys[i + 1] as i128) * (v as i128);
    let t1: Rat = match Rat::from_frac(num1, h as i128) {
        Some(q) => q,
        None => return None,
    };
    let c2: i128 = (u as i128) * ((u as i128) * (u as i128) - (h as i128) * (h as i128));
    let t2r: Rat = match Rat::from_frac(c2, 6 * (h as i128)) {
        Some(q) => q,
        None => return None,
    };
    let t2: Rat = match ms[i].mul(t2r) {
        Some(q) => q,
        None => return None,
    };
    let c3: i128 = (v as i128) * ((v as i128) * (v as i128) - (h as i128) * (h as i128));
    let t3r: Rat = match Rat::from_frac(c3, 6 * (h as i128)) {
        Some(q) => q,
        None => return None,
    };
    let t3: Rat = match ms[i + 1].mul(t3r) {
        Some(q) => q,
        None => return None,
    };
    let s1: Rat = match t1.add(t2) {
        Some(q) => q,
        None => return None,
    };
    let s2: Rat = match s1.add(t3) {
        Some(q) => q,
        None => return None,
    };
    proof {
        let ii = i as int;
        let tt = t as int;
        let uu = u as int;
        let vv = v as int;
        let hh = h as int;
        let mi = mq[ii];
        let mi1 = mq[ii + 1];
        assert(mi == ms@[ii].q() && mi1 == ms@[ii + 1].q());
        assert(ms@[ii].wf() && ms@[ii + 1].wf());
        assert(mi.1 > 0 && mi1.1 > 0);
        let term1 = (ys@[ii] * uu + ys@[ii + 1] * vv, hh);
        let term2 = q_mul(mi, (uu * (uu * uu - hh * hh), 6 * hh));
        let term3 = q_mul(mi1, (vv * (vv * vv - hh * hh), 6 * hh));
        let sv = spline_value(ts@, ys@, mq, tt);
        assert(sv == q_add(q_add(term1, term2), term3));
        // each computed fraction is equivalent to its exact counterpart
        assert(q_eqv(t1.q(), term1));
        assert(q_eqv(t2r.q(), (uu * (uu * uu - hh * hh), 6 * hh)));
        assert(q_eqv(t3r.q(), (vv * (vv * vv - hh * hh), 6 * hh)));
        assert(q_eqv(mi, mi));
        lemma_q_mul_cong(mi, mi, t2r.q(), (uu * (uu * uu - hh * hh), 6 * hh));
        lemma_q_mul_cong(mi1, mi1, t3r.q(), (vv * (vv * vv - hh * hh), 6 * hh));
        assert(q_mul(mi, t2r.q()).1 > 0 && term2.1 > 0) by (nonlinear_arith)
            requires
                mi.1 > 0,
                t2r.den > 0,
                hh > 0,
                q_mul(mi, t2r.q()).1 == mi.1 * t2r.den as int,
                term2.1 == mi.1 * (6 * hh),
        ;
        assert(q_mul(mi1, t3r.q()).1 > 0 && term3.1 > 0) by (nonlinear_arith)
            requires
                mi1.1 > 0,
                t3r.den > 0,
                hh > 0,
                q_mul(mi1, t3r.q()).1 == mi1.1 * t3r.den as int,
                term3.1 == mi1.1 * (6 * hh),
        ;
        lemma_q_eqv_trans(t2.q(), q_mul(mi, t2r.q()), term2);
        lemma_q_eqv_trans(t3.q(), q_mul(mi1, t3r.q()), term3);
        // sums
        lemma_q_add_cong(t1.q(), term1, t2.q(), term2);
        assert(q_add(t1.q(), t2.q()).1 > 0 && q_add(term1, term2).1 > 0) by (nonlinear_arith)
            requires
                t1.den > 0,
                t2.den > 0,
                hh > 0,
                term2.1 > 0,
                q_add(t1.q(), t2.q()).1 == t1.den as int * t2.den as int,
                q_add(term1, term2).1 == hh * term2.1,
        ;
        lemma_q_eqv_trans(s1.q(), q_add(t1.q(), t2.q()), q_add(term1, term2));
        lemma_q_add_cong(s1.q(), q_add(term1, term2), t3.q(), term3);
        assert(q_add(s1.q(), t3.q()).1 > 0 && sv.1 > 0) by (nonlinear_arith)
            requires
                s1.den > 0,
                t3.den > 0,
                term3.1 > 0,
                q_add(term1, term2).1 > 0,
                q_add(s1.q(), t3.q()).1 == s1.den as int * t3.den as int,
                sv.1 == q_add(term1, term2).1 * term3.1,
        ;
        lemma_q_eqv_trans(s2.q(), q_add(s1.q(), t3.q()), q_add(q_add(term1, term2), term3));
        lemma_q_floor_eqv(s2.q(), sv);
    }
    Some(s2.floor())
}

proof fn lemma_knot_products_fit(ya: int, yb: int, u: int, v: int, h: int)
    requires
        -MAX_VALUE_UM <= ya <= MAX_VALUE_UM,
        -MAX_VALUE_UM <= yb <= MAX_VALUE_UM,
        -MAX_TIME_MS <= u <= MAX_TIME_MS,
        -MAX_TIME_MS <= v <= MAX_TIME_MS,
        0 < h <= MAX_TIME_MS,
    ensures
        -0x1000_0000_0000_0000_0000_0000_0000_0000 <= ya * u
            <= 0x1000_0000_0000_0000_0000_0000_0000_0000,
        -0x1000_0000_0000_0000_0000_0000_0000_0000 <= yb * v
            <= 0x1000_0000_0000_0000_0000_0000_0000_0000,
        -1_000_000_000_000_000_000_000_000 <= u * u <= 1_000_000_000_000_000_000_000_000,
        -1_000_000_000_000_000_000_000_000 <= v * v <= 1_000_000_000_000_000_000_000_000,
        0 <= h * h <= 1_000_000_000_000_000_000_000_000,
        -2_000_000_000_000_000_000_000_000_000_000_000_000 <= u * (u * u - h * h)
            <= 2_000_000_000_000_000_000_000_000_000_000_000_000,
        -2_000_000_000_000_000_000_000_000_000_000_000_000 <= v * (v * v - h * h)
            <= 2_000_000_000_000_000_000_000_000_000_000_000_000,
{
    assert(-0x1000_0000_0000_0000_0000_0000_0000_0000 <= ya * u
        <= 0x1000_0000_0000_0000_0000_0000_0000_0000) by (nonlinear_arith)
        requires
            -MAX_VALUE_UM <= ya <= MAX_VALUE_UM,
            -MAX_TIME_MS <= u <= MAX_TIME_MS,
    ;
    assert(-0x1000_0000_0000_0000_0000_0000_0000_0000 <= yb * v
        <= 0x1000_0000_0000_0000_0000_0000_0000_0000) by (nonlinear_arith)
        requires
            -MAX_VALUE_UM <= yb <= MAX_VALUE_UM,
            -MAX_TIME_MS <= v <= MAX_TIME_MS,
    ;
    assert(0 <= u * u <= 1_000_000_000_000_000_000_000_000) by (nonlinear_arith)
        requires -MAX_TIME_MS <= u <= MAX_TIME_MS;
    assert(0 <= v * v <= 1_000_000_000_000_000_000_000_000) by (nonlinear_arith)
        requires -MAX_TIME_MS <= v <= MAX_TIME_MS;
    assert(0 <= h * h <= 1_000_000_000_000_000_000_000_000) by (nonlinear_arith)
        requires 0 < h <= MAX_TIME_MS;
    assert(-2_000_000_000_000_000_000_000_000_000_000_000_000 <= u * (u * u - h * h)
        <= 2_000_000_000_000_000_000_000_000_000_000_000_000) by (nonlinear_arith)
        requires
            -MAX_TIME_MS <= u <= MAX_TIME_MS,
            0 <= u * u <= 1_000_000_000_000_000_000_000_000,
            0 <= h * h <= 1_000_000_000_000_000_000_000_000,
    ;
    assert(-2_000_000_000_000_000_000_000_000_000_000_000_000 <= v * (v * v - h * h)
        <= 2_000_000_000_000_000_000_000_000_000_000_000_000) by (nonlinear_arith)
        requires
            -MAX_TIME_MS <= v <= MAX_TIME_MS,
            0 <= v * v <= 1_000_000_000_000_000_000_000_000,
            0 <= h * h <= 1_000_000_000_000_000_000_000_000,
    ;
}

/// The exact computation of `rhs_entry`, step by step.
pub open spec fn rhs_entry_spec(
    y_prev: int,
    y_mid: int,
    y_next: int,
    h_prev: i64,
    h_next: i64,
) -> Option<Rat> {
    match from_frac_spec(6 * (y_next - y_mid), h_next as int) {
        None => None,
        Some(ra) => 
        match from_frac_spec(6 * (y_mid - y_prev), h_prev as int) {
            None => None,
            Some(rb) => 
            sub_spec(ra, rb),
        }
    }
}

/// One right-hand-side entry of the natural-spline system at an interior
/// knot: six times the difference of the divided slopes of the two
/// adjacent segments.
fn rhs_entry(y_prev: i64, y_mid: i64, y_next: i64, h_prev: i64, h_next: i64) -> (r: Option<Rat>)
    requires
        -MAX_VALUE_UM <= y_prev <= MAX_VALUE_UM,
        -MAX_VALUE_UM <= y_mid <= MAX_VALUE_UM,
        -MAX_VALUE_UM <= y_next <= MAX_VALUE_UM,
        0 < h_prev <= MAX_TIME_MS,
        0 < h_next <= MAX_TIME_MS,
    ensures
        r matches Some(q) ==> q.wf(),
        r == rhs_entry_spec(y_prev as int, y_mid as int, y_next as int, h_prev, h_next),
{
    let ra: Rat = match Rat::from_frac(
        6 * ((y_next as i128) - (y_mid as i128)),
        h_next as i128,
    ) {
        Some(q) => q,
        None => return None,
    };
    let rb: Rat = match Rat::from_frac(
        6 * ((y_mid as i128) - (y_prev as i128)),
        h_prev as i128,
    ) {
        Some(q) => q,
        None => return None,
    };
    ra.sub(rb)
}

/// The moment equation of the natural-spline system at one interior
/// knot, cleared of denominators: with segment widths `hp` and `hn` and
/// knot values `yp`, `ym`, `yn`, the moments `ml`, `mm`, `mr` (fractions
/// with positive denominators) satisfy
/// `hp*ml + 2(hp+hn)*mm + hn*mr = 6((yn-ym)/hn - (ym-yp)/hp)`.
pub open spec fn row_ok(
    hp: int,
    hn: int,
    yp: int,
    ym: int,
    yn: int,
    ml: (int, int),
    mm: (int, int),
    mr: (int, int),
) -> bool {
    ((hp * ml.0) * (mm.1 * mr.1) + ((2 * (hp + hn)) * mm.0) * (ml.1 * mr.1) + (hn * mr.0) * (ml.1
        * mm.1)) * (hp * hn) == (6 * ((yn - ym) * hp - (ym - yp) * hn)) * (ml.1 * (mm.1 * mr.1))
}

/// The six moments satisfy all four interior moment equations of the
/// natural cubic spline through the knots.
pub open spec fn natural_system_ok(ts: Seq<i64>, ys: Seq<i64>, mq: Seq<(int, int)>) -> bool {
    forall|i: int|
        1 <= i <= 4 ==> #[trigger] row_ok(
            ts[i] - ts[i - 1],
            ts[i + 1] - ts[i],
            ys[i - 1] as int,
            ys[i] as int,
            ys[i + 1] as int,
            mq[i - 1],
            mq[i],
            mq[i + 1],
        )
}

/// The exact computation of `check_row`, step by step: the same chain of
/// checked 128-bit products, false whenever one does not fit.
#[verifier::opaque]
pub open spec fn check_row_spec(
    hp: i64,
    hn: i64,
    yp: i64,
    ym: i64,
    yn: i64,
    ml: Rat,
    mm: Rat,
    mr: Rat,
) -> bool {
    match (hp as i128).checked_mul(ml.num as i128) {
        None => false,
        Some(t1) => 
        match (mm.den as i128).checked_mul(mr.den as i128) {
            None => false,
            Some(t1b) => 
            match t1.checked_mul(t1b) {
                None => false,
                Some(t1c) => 
                match (hp as i128).checked_add(hn as i128) {
                    None => false,
                    Some(dsum) => 
                    match (2i128).checked_mul(dsum) {
                        None => false,
                        Some(dd) => 
                        match dd.checked_mul(mm.num as i128) {
                            None => false,
                            Some(t2) => 
                            match (ml.den as i128).checked_mul(mr.den as i128) {
                                None => false,
                                Some(t2b) => 
                                match t2.checked_mul(t2b) {
                                    None => false,
                                    Some(t2c) => 
                                    match (hn as i128).checked_mul(mr.num as i128) {
                                        None => false,
                                        Some(t3) => 
                                        match (ml.den as i128).checked_mul(mm.den as i128) {
                                            None => false,
                                            Some(t3b) => 
                                            match t3.checked_mul(t3b) {
                                                None => false,
                                                Some(t3c) => 
                                                match t1c.checked_add(t2c) {
                                                    None => false,
                                                    Some(s12) => 
                                                    match s12.checked_add(t3c) {
                                                        None => false,
                                                        Some(s123) => 
                                                        match (hp as i128).checked_mul(hn as i128) {
                                                            None => false,
                                                            Some(hh) => 
                                                            match s123.checked_mul(hh) {
                                                                None => false,
                                                                Some(lhs) => 
                                                                match (((yn as i128) - (ym as i128)) as i128).checked_mul(hp as i128) {
                                                                    None => false,
                                                                    Some(sa) => 
                                                                    match (((ym as i128) - (yp as i128)) as i128).checked_mul(hn as i128) {
                                                                        None => false,
                                                                        Some(sb) => 
                                                                        match sa.checked_sub(sb) {
                                                                            None => false,
                                                                            Some(sd) => 
                                                                            match (6i128).checked_mul(sd) {
                                                                                None => false,
                                                                                Some(rn) => 
                                                                                match (mm.den as i128).checked_mul(mr.den as i128) {
                                                                                    None => false,
                                                                                    Some(db) => 
                                                                                    match (ml.den as i128).checked_mul(db) {
                                                                                        None => false,
                                                                                        Some(dall) => 
                                                                                        match rn.checked_mul(dall) {
                                                                                            None => false,
                                                                                            Some(rhs) => 
                                                                                            lhs == rhs,
                                                                                        }
                                                                                    }
                                                                                }
                                                                            }
                                                                        }
                                                                    }
                                                                }
                                                            }
                                                        }
                                                    }
                                                }
                                            }
                                        }
                                    }
                                }
                            }
                        }
                    }
                }
            }
        }
    }
}

/// Verifies one moment equation by exact 128-bit arithmetic; reports
/// failure instead of deciding when a product does not fit.
fn check_row(
    hp: i64,
    hn: i64,
    yp: i64,
    ym: i64,
    yn: i64,
    ml: &Rat,
    mm: &Rat,
    mr: &Rat,
) -> (r: bool)
    ensures
        r ==> row_ok(
            hp as int,
            hn as int,
            yp as int,
            ym as int,
            yn as int,
            ml.q(),
            mm.q(),
            mr.q(),
        ),
        r == check_row_spec(hp, hn, yp, ym, yn, *ml, *mm, *mr),
{
    proof {
        reveal(check_row_spec);
    }
    let t1 = match (hp as i128).checked_mul(ml.num as i128) {
        Some(v) => v,
        None => return false,
    };
    let t1b = match (mm.den as i128).checked_mul(mr.den as i128) {
        Some(v) => v,
        None => return false,
    };
    let t1c = match t1.checked_mul(t1b) {
        Some(v) => v,
        None => return false,
    };
    let dsum = match (hp as i128).checked_add(hn as i128) {
        Some(v) => v,
        None => return false,
    };
    let dd = match (2i128).checked_mul(dsum) {
        Some(v) => v,
        None => return false,
    };
    let t2 = match dd.checked_mul(mm.num as i128) {
        Some(v) => v,
        None => return false,
    };
    let t2b = match (ml.den as i128).checked_mul(mr.den as i128) {
        Some(v) => v,
        None => return false,
    };
    let t2c = match t2.checked_mul(t2b) {
        Some(v) => v,
        None => return false,
    };
    let t3 = match (hn as i128).checked_mul(mr.num as i128) {
        Some(v) => v,
        None => return false,
    };
    let t3b = match (ml.den as i128).checked_mul(mm.den as i128) {
        Some(v) => v,
        None => return false,
    };
    let t3c = match t3.checked_mul(t3b) {
        Some(v) => v,
        None => return false,
    };
    let s12 = match t1c.checked_add(t2c) {
        Some(v) => v,
        None => return false,
    };
    let s123 = match s12.checked_add(t3c) {
        Some(v) => v,
        None => return false,
    };
    let hh = match (hp as i128).checked_mul(hn as i128) {
        Some(v) => v,
        None => return false,
    };
    let lhs = match s123.checked_mul(hh) {
        Some(v) => v,
        None => return false,
    };
    let sa = match (((yn as i128) - (ym as i128)) as i128).checked_mul(hp as i128) {
        Some(v) => v,
        None => return false,
    };
    let sb = match (((ym as i128) - (yp as i128)) as i128).checked_mul(hn as i128) {
        Some(v) => v,
        None => return false,
    };
    let sd = match sa.checked_sub(sb) {
        Some(v) => v,
        None => return false,
    };
    let rn = match (6i128).checked_mul(sd) {
        Some(v) => v,
        None => return false,
    };
    let db = match (mm.den as i128).checked_mul(mr.den as i128) {
        Some(v) => v,
        None => return false,
    };
    let dall = match (ml.den as i128).checked_mul(db) {
        Some(v) => v,
        None => return false,
    };
    let rhs = match rn.checked_mul(dall) {
        Some(v) => v,
        None => return false,
    };
    lhs == rhs
}

/// The value that `Rat::from_int` computes.
pub open spec fn from_int_spec(n: i64) -> Option<Rat> {
    if -crate::rat::RAT_MAX <= n <= crate::rat::RAT_MAX {
        Some(Rat { num: n, den: 1i64 })
    } else {
        None
    }
}

/// The exact computation of `natural_moments`, step by step: the same
/// forward elimination, back substitution and certification.
#[verifier::opaque]
pub open spec fn natural_moments_spec(ts: Seq<i64>, ys: Seq<i64>) -> Option<Seq<Rat>> {
    let h0 = (ts[1] - ts[0]) as i64;
    let h1 = (ts[2] - ts[1]) as i64;
    let h2 = (ts[3] - ts[2]) as i64;
    let h3 = (ts[4] - ts[3]) as i64;
    let h4 = (ts[5] - ts[4]) as i64;
    match from_int_spec((2 * (h0 + h1)) as i64) {
        None => None,
        Some(d1) => 
        match from_int_spec((2 * (h1 + h2)) as i64) {
            None => None,
            Some(d2) => 
            match from_int_spec((2 * (h2 + h3)) as i64) {
                None => None,
                Some(d3) => 
                match from_int_spec((2 * (h3 + h4)) as i64) {
                    None => None,
                    Some(d4) => 
                    match from_int_spec(h1) {
                        None => None,
                        Some(c1) => 
                        match from_int_spec(h2) {
                            None => None,
                            Some(c2) => 
                            match from_int_spec(h3) {
                                None => None,
                                Some(c3) => 
                                match from_int_spec(h1) {
                                    None => None,
                                    Some(a2) => 
                                    match from_int_spec(h2) {
                                        None => None,
                                        Some(a3) => 
                                        match from_int_spec(h3) {
                                            None => None,
                                            Some(a4) => 
                                            match rhs_entry_spec(ys[0] as int, ys[1] as int, ys[2] as int, h0, h1) {
                                                None => None,
                                                Some(r1) => 
                                                match rhs_entry_spec(ys[1] as int, ys[2] as int, ys[3] as int, h1, h2) {
                                                    None => None,
                                                    Some(r2) => 
                                                    match rhs_entry_spec(ys[2] as int, ys[3] as int, ys[4] as int, h2, h3) {
                                                        None => None,
                                                        Some(r3) => 
                                                        match rhs_entry_spec(ys[3] as int, ys[4] as int, ys[5] as int, h3, h4) {
                                                            None => None,
                                                            Some(r4) => 
                                                            match if d1.num == 0 { None } else { div_spec(a2, d1) } {
                                                                None => None,
                                                                Some(w2) => 
                                                                match mul_spec(w2, c1) {
                                                                    None => None,
                                                                    Some(w2c1) => 
                                                                    match sub_spec(d2, w2c1) {
                                                                        None => None,
                                                                        Some(d2p) => 
                                                                        match mul_spec(w2, r1) {
                                                                            None => None,
                                                                            Some(w2r1) => 
                                                                            match sub_spec(r2, w2r1) {
                                                                                None => None,
                                                                                Some(r2p) => 
                                                                                match if d2p.num == 0 { None } else { div_spec(a3, d2p) } {
                                                                                    None => None,
                                                                                    Some(w3) => 
                                                                                    match mul_spec(w3, c2) {
                                                                                        None => None,
                                                                                        Some(w3c2) => 
                                                                                        match sub_spec(d3, w3c2) {
                                                                                            None => None,
                                                                                            Some(d3p) => 
                                                                                            match mul_spec(w3, r2p) {
                                                                                                None => None,
                                                                                                Some(w3r2) => 
                                                                                                match sub_spec(r3, w3r2) {
                                                                                                    None => None,
                                                                                                    Some(r3p) => 
                                                                                                    match if d3p.num == 0 { None } else { div_spec(a4, d3p) } {
                                                                                                        None => None,
                                                                                                        Some(w4) => 
                                                                                                        match mul_spec(w4, c3) {
                                                                                                            None => None,
                                                                                                            Some(w4c3) => 
                                                                                                            match sub_spec(d4, w4c3) {
                                                                                                                None => None,
                                                                                                                Some(d4p) => 
                                                                                                                match mul_spec(w4, r3p) {
                                                                                                                    None => None,
                                                                                                                    Some(w4r3) => 
                                                                                                                    match sub_spec(r4, w4r3) {
                                                                                                                        None => None,
                                                                                                                        Some(r4p) => 
                                                                                                                        match if d4p.num == 0 { None } else { div_spec(r4p, d4p) } {
                                                                                                                            None => None,
                                                                                                                            Some(m4) => 
                                                                                                                            match mul_spec(c3, m4) {
                                                                                                                                None => None,
                                                                                                                                Some(c3m4) => 
                                                                                                                                match sub_spec(r3p, c3m4) {
                                                                                                                                    None => None,
                                                                                                                                    Some(n3) => 
                                                                                                                                    match div_spec(n3, d3p) {
                                                                                                                                        None => None,
                                                                                                                                        Some(m3) => 
                                                                                                                                        match mul_spec(c2, m3) {
                                                                                                                                            None => None,
                                                                                                                                            Some(c2m3) => 
                                                                                                                                            match sub_spec(r2p, c2m3) {
                                                                                                                                                None => None,
                                                                                                                                                Some(n2) => 
                                                                                                                                                match div_spec(n2, d2p) {
                                                                                                                                                    None => None,
                                                                                                                                                    Some(m2) => 
                                                                                                                                                    match mul_spec(c1, m2) {
                                                                                                                                                        None => None,
                                                                                                                                                        Some(c1m2) => 
                                                                                                                                                        match sub_spec(r1, c1m2) {
                                                                                                                                                            None => None,
                                                                                                                                                            Some(n1) => 
                                                                                                                                                            match div_spec(n1, d1) {
                                                                                                                                                                None => None,
                                                                                                                                                                Some(m1) => 
                                                                                                                                                                ({
    let z = Rat { num: 0i64, den: 1i64 };
    if check_row_spec(h0, h1, ys[0], ys[1], ys[2], z, m1, m2)
        && check_row_spec(h1, h2, ys[1], ys[2], ys[3], m1, m2, m3)
        && check_row_spec(h2, h3, ys[2], ys[3], ys[4], m2, m3, m4)
        && check_row_spec(h3, h4, ys[3], ys[4], ys[5], m3, m4, z) {
        Some(seq![z, m1, m2, m3, m4, z])
    } else {
        None
    }
}),
                                                                                                                                                            }
                                                                                                                                                        }
                                                                                                                                                    }
                                                                                                                                                }
                                                                                                                                            }
                                                                                                                                        }
                                                                                                                                    }
                                                                                                                                }
                                                                                                                            }
                                                                                                                        }
                                                                                                                    }
                                                                                                                }
                                                                                                            }
                                                                                                        }
                                                                                                    }
                                                                                                }
                                                                                            }
                                                                                        }
                                                                                    }
                                                                                }
                                                                            }
                                                                        }
                                                                    }
                                                                }
                                                            }
                                                        }
                                                    }
                                                }
                                            }
                                        }
                                    }
                                }
                            }
                        }
                    }
                }
            }
        }
    }
}

/// Solves the tridiagonal system of the natural cubic spline through the
/// six knots by forward elimination and back substitution, in exact
/// rational arithmetic. The two boundary moments are zero (the natural
/// boundary condition); the four interior moments come from the solve.
/// Returns nothing when an intermediate fraction cannot be represented or
/// a pivot vanishes.
#[verifier::rlimit(100)]
pub fn natural_moments(ts: &[i64; 6], ys: &[i64; 6]) -> (r: Option<[Rat; 6]>)
    requires
        ts_wf(ts@),
        ys_wf(ys@),
    ensures
        r matches Some(ms) ==> {
            &&& forall|i: int| 0 <= i < 6 ==> #[trigger] ms@[i].wf()
            &&& ms@[0].num == 0
            &&& ms@[5].num == 0
            &&& natural_system_ok(ts@, ys@, ms@.map_values(|m: Rat| m.q()))
        },
        match natural_moments_spec(ts@, ys@) {
            None => r is None,
            Some(s) => r matches Some(ms) && ms@ == s,
        },
{
    proof {
        reveal(natural_moments_spec);
        assert(forall|a: int, b: int| 0 <= a < b < 6 ==> #[trigger] ts@[a] < #[trigger] ts@[b]);
        assert(ts@[0] <= ts@[1] && ts@[4] <= ts@[5]);
    }
    let h0: i64 = ts[1] - ts[0];
    let h1: i64 = ts[2] - ts[1];
    let h2: i64 = ts[3] - ts[2];
    let h3: i64 = ts[4] - ts[3];
    let h4: i64 = ts[5] - ts[4];
    let d1: Rat = match Rat::from_int(2 * (h0 + h1)) {
        Some(q) => q,
        None => return None,
    };
    let d2: Rat = match Rat::from_int(2 * (h1 + h2)) {
        Some(q) => q,
        None => return None,
    };
    let d3: Rat = match Rat::from_int(2 * (h2 + h3)) {
        Some(q) => q,
        None => return None,
    };
    let d4: Rat = match Rat::from_int(2 * (h3 + h4)) {
        Some(q) => q,
        None => return None,
    };
    let c1: Rat = match Rat::from_int(h1) {
        Some(q) => q,
        None => return None,
    };
    let c2: Rat = match Rat::from_int(h2) {
        Some(q) => q,
        None => return None,
    };
    let c3: Rat = match Rat::from_int(h3) {
        Some(q) => q,
        None => return None,
    };
    let a2: Rat = match Rat::from_int(h1) {
        Some(q) => q,
        None => return None,
    };
    let a3: Rat = match Rat::from_int(h2) {
        Some(q) => q,
        None => return None,
    };
    let a4: Rat = match Rat::from_int(h3) {
        Some(q) => q,
        None => return None,
    };
    let r1: Rat = match rhs_entry(ys[0], ys[1], ys[2], h0, h1) {
        Some(q) => q,
        None => return None,
    };
    let r2: Rat = match rhs_entry(ys[1], ys[2], ys[3], h1, h2) {
        Some(q) => q,
        None => return None,
    };
    let r3: Rat = match rhs_entry(ys[2], ys[3], ys[4], h2, h3) {
        Some(q) => q,
        None => return None,
    };
    let r4: Rat = match rhs_entry(ys[3], ys[4], ys[5], h3, h4) {
        Some(q) => q,
        None => return None,
    };
    // forward elimination
    if d1.is_zero() {
        return None;
    }
    let w2: Rat = match a2.div(d1) {
        Some(q) => q,
        None => return None,
    };
    let w2c1: Rat = match w2.mul(c1) {
        Some(q) => q,
        None => return None,
    };
    let d2p: Rat = match d2.sub(w2c1) {
        Some(q) => q,
        None => return None,
    };
    let w2r1: Rat = match w2.mul(r1) {
        Some(q) => q,
        None => return None,
    };
    let r2p: Rat = match r2.sub(w2r1) {
        Some(q) => q,
        None => return None,
    };
    if d2p.is_zero() {
        return None;
    }
    let w3: Rat = match a3.div(d2p) {
        Some(q) => q,
        None => return None,
    };
    let w3c2: Rat = match w3.mul(c2) {
        Some(q) => q,
        None => return None,
    };
    let d3p: Rat = match d3.sub(w3c2) {
        Some(q) => q,
        None => return None,
    };
    let w3r2: Rat = match w3.mul(r2p) {
        Some(q) => q,
        None => return None,
    };
    let r3p: Rat = match r3.sub(w3r2) {
        Some(q) => q,
        None => return None,
    };
    if d3p.is_zero() {
        return None;
    }
    let w4: Rat = match a4.div(d3p) {
        Some(q) => q,
        None => return None,
    };
    let w4c3: Rat = match w4.mul(c3) {
        Some(q) => q,
        None => return None,
    };
    let d4p: Rat = match d4.sub(w4c3) {
        Some(q) => q,
        None => return None,
    };
    let w4r3: Rat = match w4.mul(r3p) {
        Some(q) => q,
        None => return None,
    };
    let r4p: Rat = match r4.sub(w4r3) {
        Some(q) => q,
        None => return None,
    };
    if d4p.is_zero() {
        return None;
    }
    // back substitution
    let m4: Rat = match r4p.div(d4p) {
        Some(q) => q,
        None => return None,
    };
    let c3m4: Rat = match c3.mul(m4) {
        Some(q) => q,
        None => return None,
    };
    let n3: Rat = match r3p.sub(c3m4) {
        Some(q) => q,
        None => return None,
    };
    let m3: Rat = match n3.div(d3p) {
        Some(q) => q,
        None => return None,
    };
    let c2m3: Rat = match c2.mul(m3) {
        Some(q) => q,
        None => return None,
    };
    let n2: Rat = match r2p.sub(c2m3) {
        Some(q) => q,
        None => return None,
    };
    let m2: Rat = match n2.div(d2p) {
        Some(q) => q,
        None => return None,
    };
    let c1m2: Rat = match c1.mul(m2) {
        Some(q) => q,
        None => return None,
    };
    let n1: Rat = match r1.sub(c1m2) {
        Some(q) => q,
        None => return None,
    };
    let m1: Rat = match n1.div(d1) {
        Some(q) => q,
        None => return None,
    };
    let z: Rat = Rat::zero();
    // certify the solution: each interior moment equation is re-checked
    // in exact integer arithmetic
    if !check_row(h0, h1, ys[0], ys[1], ys[2], &z, &m1, &m2) {
        return None;
    }
    if !check_row(h1, h2, ys[1], ys[2], ys[3], &m1, &m2, &m3) {
        return None;
    }
    if !check_row(h2, h3, ys[2], ys[3], ys[4], &m2, &m3, &m4) {
        return None;
    }
    if !check_row(h3, h4, ys[3], ys[4], ys[5], &m3, &m4, &z) {
        return None;
    }
    let ms: [Rat; 6] = [z, m1, m2, m3, m4, z];
    proof {
        assert forall|i: int| 0 <= i < 6 implies #[trigger] ms@[i].wf() by {
            assert(ms@[0] == z && ms@[1] == m1 && ms@[2] == m2 && ms@[3] == m3 && ms@[4] == m4
                && ms@[5] == z);
        }
        let mq = ms@.map_values(|m: Rat| m.q());
        assert forall|i: int|
            1 <= i <= 4 implies #[trigger] row_ok(
            ts@[i] - ts@[i - 1],
            ts@[i + 1] - ts@[i],
            ys@[i - 1] as int,
            ys@[i] as int,
            ys@[i + 1] as int,
            mq[i - 1],
            mq[i],
            mq[i + 1],
        ) by {
            assert(mq[0] == z.q() && mq[1] == m1.q() && mq[2] == m2.q() && mq[3] == m3.q()
                && mq[4] == m4.q() && mq[5] == z.q());
            if i == 1 {
            } else if i == 2 {
            } else if i == 3 {
            } else {
                assert(i == 4);
            }
        }
    }
    Some(ms)
}

/// The times of the six knots around the trigger: the last three samples
/// of the before-trace and the first three of the after-trace.
pub open spec fn six_times(b: Seq<TracePoint>, a: Seq<TracePoint>) -> Seq<i64> {
    seq![
        b[b.len() - 3].time_ms,
        b[b.len() - 2].time_ms,
        b[b.len() - 1].time_ms,
        a[0].time_ms,
        a[1].time_ms,
        a[2].time_ms,
    ]
}

/// The x values of the six knots around the trigger.
pub open spec fn six_xs(b: Seq<TracePoint>, a: Seq<TracePoint>) -> Seq<i64> {
    seq![b[b.len() - 3].x_um, b[b.len() - 2].x_um, b[b.len() - 1].x_um, a[0].x_um, a[1].x_um, a[2].x_um]
}

/// The y values of the six knots around the trigger.
pub open spec fn six_ys(b: Seq<TracePoint>, a: Seq<TracePoint>) -> Seq<i64> {
    seq![b[b.len() - 3].y_um, b[b.len() - 2].y_um, b[b.len() - 1].y_um, a[0].y_um, a[1].y_um, a[2].y_um]
}

/// The exact computation of `spline_impact`, step by step: nothing unless
/// the six knot times strictly increase; otherwise the two certified
/// natural-spline solves and the two evaluations at the trigger instant.
pub open spec fn spline_impact_spec(
    b: Seq<TracePoint>,
    a: Seq<TracePoint>,
    trigger_rel_ms: i64,
) -> Option<TracePoint> {
    let ts = six_times(b, a);
    let xs = six_xs(b, a);
    let ys = six_ys(b, a);
    if !(ts[0] < ts[1] && ts[1] < ts[2] && ts[2] < ts[3] && ts[3] < ts[4] && ts[4] < ts[5]) {
        None
    } else {
        match natural_moments_spec(ts, xs) {
            None => None,
            Some(msx) => match natural_moments_spec(ts, ys) {
                None => None,
                Some(msy) => match eval_at_spec(ts, xs, msx, trigger_rel_ms as int) {
                    None => None,
                    Some(x_um) => match eval_at_spec(ts, ys, msy, trigger_rel_ms as int) {
                        None => None,
                        Some(y_um) => Some(TracePoint { x_um, y_um, time_ms: trigger_rel_ms }),
                    },
                },
            },
        }
    }
}

/// The returned point is the natural cubic spline through the six knots
/// around the trigger, evaluated at the trigger instant: for moments that
/// are zero at the boundary and satisfy the spline's interior moment
/// equations, each coordinate is the floor of the exact spline value.
pub open spec fn interpolated_ok(
    b: Seq<TracePoint>,
    a: Seq<TracePoint>,
    trigger_rel_ms: i64,
    p: TracePoint,
) -> bool {
    &&& p.time_ms == trigger_rel_ms
    &&& ts_wf(six_times(b, a))
    &&& exists|mx: Seq<(int, int)>|
        {
            &&& #[trigger] moments_wf(mx)
            &&& mx[0].0 == 0
            &&& mx[5].0 == 0
            &&& natural_system_ok(six_times(b, a), six_xs(b, a), mx)
            &&& p.x_um == ({
                let sv = spline_value(six_times(b, a), six_xs(b, a), mx, trigger_rel_ms as int);
                sv.0 / sv.1
            })
        }
    &&& exists|my: Seq<(int, int)>|
        {
            &&& #[trigger] moments_wf(my)
            &&& my[0].0 == 0
            &&& my[5].0 == 0
            &&& natural_system_ok(six_times(b, a), six_ys(b, a), my)
            &&& p.y_um == ({
                let sv = spline_value(six_times(b, a), six_ys(b, a), my, trigger_rel_ms as int);
                sv.0 / sv.1
            })
        }
}

/// Reconstructs the impact point at the trigger instant: builds the two
/// natural cubic splines over the three trace points before and the three
/// after the trigger, and evaluates them at the trigger time. Returns
/// nothing when the six knot times are not strictly increasing or an
/// intermediate fraction cannot be represented; the caller then falls back
/// to the frame point closest to the trigger.
#[verifier::rlimit(100)]
pub fn spline_impact(before: &Vec<TracePoint>, after: &Vec<TracePoint>, trigger_rel_ms: i64) -> (r:
    Option<TracePoint>)
    requires
        before@.len() >= 3,
        after@.len() >= 3,
        forall|k: int| 0 <= k < before@.len() ==> #[trigger] before@[k].wf(),
        forall|k: int| 0 <= k < after@.len() ==> #[trigger] after@[k].wf(),
        0 <= trigger_rel_ms <= MAX_TIME_MS,
    ensures
        r matches Some(p) ==> interpolated_ok(before@, after@, trigger_rel_ms, p),
        r == spline_impact_spec(before@, after@, trigger_rel_ms),
{
    let n: usize = before.len();
    let ts_arr: [i64; 6] = [
        before[n - 3].time_ms,
        before[n - 2].time_ms,
        before[n - 1].time_ms,
        after[0].time_ms,
        after[1].time_ms,
        after[2].time_ms,
    ];
    let xs_arr: [i64; 6] = [
        before[n - 3].x_um,
        before[n - 2].x_um,
        before[n - 1].x_um,
        after[0].x_um,
        after[1].x_um,
        after[2].x_um,
    ];
    let ys_arr: [i64; 6] = [
        before[n - 3].y_um,
        before[n - 2].y_um,
        before[n - 1].y_um,
        after[0].y_um,
        after[1].y_um,
        after[2].y_um,
    ];
    if !(ts_arr[0] < ts_arr[1] && ts_arr[1] < ts_arr[2] && ts_arr[2] < ts_arr[3] && ts_arr[3]
        < ts_arr[4] && ts_arr[4] < ts_arr[5]) {
        return None;
    }
    proof {
        assert(ts_arr@ =~= six_times(before@, after@));
        assert(xs_arr@ =~= six_xs(before@, after@));
        assert(ys_arr@ =~= six_ys(before@, after@));
        assert(before@[n - 3].wf() && before@[n - 2].wf() && before@[n - 1].wf());
        assert(after@[0].wf() && after@[1].wf() && after@[2].wf());
        assert forall|a: int, b: int| 0 <= a < b < 6 implies #[trigger] ts_arr@[a]
            < #[trigger] ts_arr@[b] by {
            assert(ts_arr@[0] < ts_arr@[1] && ts_arr@[1] < ts_arr@[2] && ts_arr@[2] < ts_arr@[3]
                && ts_arr@[3] < ts_arr@[4] && ts_arr@[4] < ts_arr@[5]);
        }
        assert(ts_wf(ts_arr@));
        assert forall|i: int| 0 <= i < 6 implies -MAX_VALUE_UM <= #[trigger] xs_arr@[i]
            <= MAX_VALUE_UM by {}
        assert forall|i: int| 0 <= i < 6 implies -MAX_VALUE_UM <= #[trigger] ys_arr@[i]
            <= MAX_VALUE_UM by {}
    }
    let msx: [Rat; 6] = match natural_moments(&ts_arr, &xs_arr) {
        Some(m) => m,
        None => return None,
    };
    let msy: [Rat; 6] = match natural_moments(&ts_arr, &ys_arr) {
        Some(m) => m,
        None => return None,
    };
    let x_um: i64 = match eval_at(&ts_arr, &xs_arr, &msx, trigger_rel_ms) {
        Some(x) => x,
        None => return None,
    };
    let y_um: i64 = match eval_at(&ts_arr, &ys_arr, &msy, trigger_rel_ms) {
        Some(y) => y,
        None => return None,
    };
    let p = TracePoint { x_um, y_um, time_ms: trigger_rel_ms };
    proof {
        let mxq = msx@.map_values(|m: Rat| m.q());
        let myq = msy@.map_values(|m: Rat| m.q());
        assert(moments_wf(mxq)) by {
            assert forall|i: int| 0 <= i < 6 implies #[trigger] mxq[i].1 > 0 by {
                assert(msx@[i].wf());
                assert(mxq[i] == msx@[i].q());
            }
        }
        assert(moments_wf(myq)) by {
            assert forall|i: int| 0 <= i < 6 implies #[trigger] myq[i].1 > 0 by {
                assert(msy@[i].wf());
                assert(myq[i] == msy@[i].q());
            }
        }
        assert(mxq[0].0 == 0 && mxq[5].0 == 0 && myq[0].0 == 0 && myq[5].0 == 0);
        assert(interpolated_ok(before@, after@, trigger_rel_ms, p));
    }
    Some(p)
}

} // verus!
