//! Exact rational arithmetic on reduced fractions with bounded components,
//! used by the spline interpolator. Every operation either returns the
//! exact rational result or reports that it cannot be represented.

use vstd::prelude::*;

use crate::num::{common_divisor, euclid};

verus! {

/// Bound on the magnitude of a fraction's numerator and denominator.
pub const RAT_MAX: i64 = 0x4000_0000_0000_0000;

/// A fraction at specification level: a numerator and a denominator, kept
/// as unbounded integers and compared by cross-multiplication.
pub open spec fn q_eqv(a: (int, int), b: (int, int)) -> bool {
    a.0 * b.1 == b.0 * a.1
}

/// The exact sum of two fractions.
pub open spec fn q_add(a: (int, int), b: (int, int)) -> (int, int) {
    (a.0 * b.1 + b.0 * a.1, a.1 * b.1)
}

/// The exact product of two fractions.
pub open spec fn q_mul(a: (int, int), b: (int, int)) -> (int, int) {
    (a.0 * b.0, a.1 * b.1)
}

/// The integer `n` as a fraction.
pub open spec fn q_int(n: int) -> (int, int) {
    (n, 1)
}

/// Fraction equivalence is transitive (denominators positive).
pub proof fn lemma_q_eqv_trans(a: (int, int), b: (int, int), c: (int, int))
    requires
        a.1 > 0,
        b.1 > 0,
        c.1 > 0,
        q_eqv(a, b),
        q_eqv(b, c),
    ensures
        q_eqv(a, c),
{
    assert(a.0 * c.1 == c.0 * a.1) by (nonlinear_arith)
        requires
            b.1 > 0,
            a.0 * b.1 == b.0 * a.1,
            b.0 * c.1 == c.0 * b.1,
    ;
}

/// Addition respects fraction equivalence.
pub proof fn lemma_q_add_cong(a: (int, int), a2: (int, int), b: (int, int), b2: (int, int))
    requires
        a.1 > 0,
        a2.1 > 0,
        b.1 > 0,
        b2.1 > 0,
        q_eqv(a, a2),
        q_eqv(b, b2),
    ensures
        q_eqv(q_add(a, b), q_add(a2, b2)),
{
    let p1 = (a.0 * b.1 + b.0 * a.1, a.1 * b.1);
    let p2 = (a2.0 * b.1 + b.0 * a2.1, a2.1 * b.1);
    let p3 = (a2.0 * b2.1 + b2.0 * a2.1, a2.1 * b2.1);
    assert(p1.1 > 0 && p2.1 > 0 && p3.1 > 0) by (nonlinear_arith)
        requires
            a.1 > 0 && a2.1 > 0 && b.1 > 0 && b2.1 > 0,
            p1.1 == a.1 * b.1 && p2.1 == a2.1 * b.1 && p3.1 == a2.1 * b2.1,
    ;
    assert((a.0 * b.1) * (a2.1 * b.1) == (a2.0 * b.1) * (a.1 * b.1)) by (nonlinear_arith)
        requires
            a.0 * a2.1 == a2.0 * a.1,
    ;
    assert((b.0 * a.1) * (a2.1 * b.1) == (b.0 * a2.1) * (a.1 * b.1)) by (nonlinear_arith);
    assert((a.0 * b.1 + b.0 * a.1) * (a2.1 * b.1) == (a.0 * b.1) * (a2.1 * b.1) + (b.0 * a.1) * (
    a2.1 * b.1)) by (nonlinear_arith);
    assert((a2.0 * b.1 + b.0 * a2.1) * (a.1 * b.1) == (a2.0 * b.1) * (a.1 * b.1) + (b.0 * a2.1) * (
    a.1 * b.1)) by (nonlinear_arith);
    assert((b.0 * a2.1) * (a2.1 * b2.1) == (b2.0 * a2.1) * (a2.1 * b.1)) by (nonlinear_arith)
        requires
            b.0 * b2.1 == b2.0 * b.1,
    ;
    assert((a2.0 * b.1) * (a2.1 * b2.1) == (a2.0 * b2.1) * (a2.1 * b.1)) by (nonlinear_arith);
    assert((a2.0 * b.1 + b.0 * a2.1) * (a2.1 * b2.1) == (a2.0 * b.1) * (a2.1 * b2.1) + (b.0 * a2.1)
        * (a2.1 * b2.1)) by (nonlinear_arith);
    assert((a2.0 * b2.1 + b2.0 * a2.1) * (a2.1 * b.1) == (a2.0 * b2.1) * (a2.1 * b.1) + (b2.0
        * a2.1) * (a2.1 * b.1)) by (nonlinear_arith);
    lemma_q_eqv_trans(p1, p2, p3);
}

/// Multiplication respects fraction equivalence.
pub proof fn lemma_q_mul_cong(a: (int, int), a2: (int, int), b: (int, int), b2: (int, int))
    requires
        a.1 > 0,
        a2.1 > 0,
        b.1 > 0,
        b2.1 > 0,
        q_eqv(a, a2),
        q_eqv(b, b2),
    ensures
        q_eqv(q_mul(a, b), q_mul(a2, b2)),
{
    assert((a.0 * b.0) * (a2.1 * b2.1) == (a2.0 * b2.0) * (a.1 * b.1)) by (nonlinear_arith)
        requires
            a.0 * a2.1 == a2.0 * a.1,
            b.0 * b2.1 == b2.0 * b.1,
    ;
}

/// Equivalent fractions have the same floor.
pub proof fn lemma_q_floor_eqv(a: (int, int), b: (int, int))
    requires
        a.1 > 0,
        b.1 > 0,
        q_eqv(a, b),
    ensures
        a.0 / a.1 == b.0 / b.1,
{
    let f = a.0 / a.1;
    vstd::arithmetic::div_mod::lemma_fundamental_div_mod(a.0, a.1);
    let r = a.0 % a.1;
    assert(0 <= b.0 - b.1 * f < b.1) by (nonlinear_arith)
        requires
            a.1 > 0,
            b.1 > 0,
            a.0 == a.1 * f + r,
            0 <= r < a.1,
            a.0 * b.1 == b.0 * a.1,
    ;
    let r2 = b.0 - b.1 * f;
    assert(b.0 == f * b.1 + r2) by (nonlinear_arith)
        requires r2 == b.0 - b.1 * f;
    vstd::arithmetic::div_mod::lemma_fundamental_div_mod_converse_div(b.0, b.1, f, r2);
}

/// The reduced fraction that `from_frac` computes: the sign split off,
/// the magnitudes divided by their Euclid divisor, the result accepted
/// exactly when both reduced components fit the representable range.
pub open spec fn from_frac_spec(num: int, den: int) -> Option<Rat> {
    let nm: nat = if num < 0 {
        (-num) as nat
    } else {
        num as nat
    };
    let dm: nat = if den < 0 {
        (-den) as nat
    } else {
        den as nat
    };
    if nm == 0 {
        Some(Rat { num: 0, den: 1 })
    } else {
        let g = euclid(dm, nm);
        let qn = nm / g;
        let qd = dm / g;
        if qn <= RAT_MAX as nat && qd <= RAT_MAX as nat {
            let neg = (num < 0) != (den < 0);
            Some(
                Rat {
                    num: if neg {
                        (-(qn as int)) as i64
                    } else {
                        qn as i64
                    },
                    den: qd as i64,
                },
            )
        } else {
            None
        }
    }
}

/// The exact reduced sum that `Rat::add` computes.
pub open spec fn add_spec(a: Rat, b: Rat) -> Option<Rat> {
    from_frac_spec(a.num * b.den + b.num * a.den, a.den * b.den)
}

/// The exact reduced difference that `Rat::sub` computes.
pub open spec fn sub_spec(a: Rat, b: Rat) -> Option<Rat> {
    from_frac_spec(a.num * b.den - b.num * a.den, a.den * b.den)
}

/// The exact reduced product that `Rat::mul` computes.
pub open spec fn mul_spec(a: Rat, b: Rat) -> Option<Rat> {
    from_frac_spec(a.num * b.num, a.den * b.den)
}

/// The exact reduced quotient that `Rat::div` computes.
pub open spec fn div_spec(a: Rat, b: Rat) -> Option<Rat> {
    from_frac_spec(a.num * b.den, a.den * b.num)
}

/// An exact fraction held as a reduced numerator and positive denominator,
/// both bounded so that operations can be carried out in 128-bit
/// intermediates.
#[derive(Clone, Copy, Debug, PartialEq, Eq, Structural)]
pub struct Rat {
    pub num: i64,
    pub den: i64,
}

impl Rat {
    /// Components within the representable range, denominator positive.
    pub open spec fn wf(self) -> bool {
        &&& -RAT_MAX <= self.num <= RAT_MAX
        &&& 1 <= self.den <= RAT_MAX
    }

    /// The fraction this value denotes.
    pub open spec fn q(self) -> (int, int) {
        (self.num as int, self.den as int)
    }

    /// The fraction zero.
    pub fn zero() -> (r: Rat)
        ensures
            r.wf(),
            r.q() == q_int(0),
    {
        Rat { num: 0, den: 1 }
    }

    /// The integer `n` as a fraction, when it is within the representable
    /// range.
    pub fn from_int(n: i64) -> (r: Option<Rat>)
        ensures
            r matches Some(q) ==> q.wf() && q.q() == q_int(n as int),
            r == if -RAT_MAX <= n <= RAT_MAX {
                Some(Rat { num: n, den: 1i64 })
            } else {
                None::<Rat>
            },
    {
        if -RAT_MAX <= n && n <= RAT_MAX {
            Some(Rat { num: n, den: 1 })
        } else {
            None
        }
    }

    /// The fraction `num / den`, reduced; reports failure when the reduced
    /// components do not fit the representable range.
    #[verifier::rlimit(80)]
    pub fn from_frac(num: i128, den: i128) -> (r: Option<Rat>)
        requires
            den != 0,
            num > i128::MIN,
            den > i128::MIN,
        ensures
            r matches Some(q) ==> q.wf() && q.num * den == num * q.den,
            r == from_frac_spec(num as int, den as int),
            (-RAT_MAX <= num <= RAT_MAX && -RAT_MAX <= den <= RAT_MAX) ==> r is Some,
    {
        let neg: bool = (num < 0) != (den < 0);
        let nm: u128 = if num < 0 {
            (-num) as u128
        } else {
            num as u128
        };
        let dm: u128 = if den < 0 {
            (-den) as u128
        } else {
            den as u128
        };
        if nm == 0 {
            proof {
                assert(num == 0);
                assert(from_frac_spec(num as int, den as int) == Some(Rat { num: 0i64, den: 1i64 }));
                assert((Rat { num: 0i64, den: 1i64 }).wf());
                assert((Rat { num: 0i64, den: 1i64 }).num as int * (den as int) == (num as int) * (
                (Rat { num: 0i64, den: 1i64 }).den as int)) by (nonlinear_arith)
                    requires num == 0;
            }
            return Some(Rat { num: 0, den: 1 });
        }
        let g: u128 = common_divisor(dm, nm);
        let qn: u128 = nm / g;
        let qd: u128 = dm / g;
        proof {
            vstd::arithmetic::div_mod::lemma_fundamental_div_mod(dm as int, g as int);
            vstd::arithmetic::div_mod::lemma_fundamental_div_mod(nm as int, g as int);
            assert(dm as int == g as int * qd as int);
            assert(nm as int == g as int * qn as int);
            assert(qd >= 1) by (nonlinear_arith)
                requires
                    dm as int == g as int * qd as int,
                    dm >= 1,
                    g >= 1,
            ;
            assert(qn as int * dm as int == nm as int * qd as int) by (nonlinear_arith)
                requires
                    dm as int == g as int * qd as int,
                    nm as int == g as int * qn as int,
            ;
        }
        if qn <= RAT_MAX as u128 && qd <= RAT_MAX as u128 {
            let n64: i64 = if neg {
                -(qn as i64)
            } else {
                qn as i64
            };
            let q = Rat { num: n64, den: qd as i64 };
            proof {
                let core = qn as int * dm as int == nm as int * qd as int;
                if num < 0 {
                    assert(nm as int == -(num as int));
                    if den < 0 {
                        assert(dm as int == -(den as int));
                        assert(n64 as int == qn as int);
                        assert(qn as int * (den as int) == (num as int) * qd as int)
                            by (nonlinear_arith)
                            requires
                                qn as int * dm as int == nm as int * qd as int,
                                nm as int == -(num as int),
                                dm as int == -(den as int),
                        ;
                    } else {
                        assert(dm as int == den as int);
                        assert(n64 as int == -(qn as int));
                        assert((-(qn as int)) * (den as int) == (num as int) * qd as int)
                            by (nonlinear_arith)
                            requires
                                qn as int * dm as int == nm as int * qd as int,
                                nm as int == -(num as int),
                                dm as int == den as int,
                        ;
                    }
                } else {
                    assert(nm as int == num as int);
                    if den < 0 {
                        assert(dm as int == -(den as int));
                        assert(n64 as int == -(qn as int));
                        assert((-(qn as int)) * (den as int) == (num as int) * qd as int)
                            by (nonlinear_arith)
                            requires
                                qn as int * dm as int == nm as int * qd as int,
                                nm as int == num as int,
                                dm as int == -(den as int),
                        ;
                    } else {
                        assert(dm as int == den as int);
                        assert(n64 as int == qn as int);
                    }
                }
            }
            Some(q)
        } else {
            None
        }
    }

    /// The exact sum, when representable.
    pub fn add(self, other: Rat) -> (r: Option<Rat>)
        requires
            self.wf(),
            other.wf(),
        ensures
            r matches Some(q) ==> q.wf() && q_eqv(q.q(), q_add(self.q(), other.q())),
            r == add_spec(self, other),
    {
        proof {
            lemma_rat_products_bounded(self, other);
        }
        let n: i128 = (self.num as i128) * (other.den as i128) + (other.num as i128)
            * (self.den as i128);
        let d: i128 = (self.den as i128) * (other.den as i128);
        Rat::from_frac(n, d)
    }

    /// The exact difference, when representable.
    pub fn sub(self, other: Rat) -> (r: Option<Rat>)
        requires
            self.wf(),
            other.wf(),
        ensures
            r matches Some(q) ==> q.wf() && q_eqv(
                q.q(),
                q_add(self.q(), (-other.num as int, other.den as int)),
            ),
            r == sub_spec(self, other),
    {
        proof {
            lemma_rat_products_bounded(self, other);
        }
        let n: i128 = (self.num as i128) * (other.den as i128) - (other.num as i128)
            * (self.den as i128);
        let d: i128 = (self.den as i128) * (other.den as i128);
        let r = Rat::from_frac(n, d);
        proof {
            assert((-(other.num as int)) * (self.den as int) == -((other.num as int) * (
            self.den as int))) by (nonlinear_arith);
        }
        r
    }

    /// The exact product, when representable.
    pub fn mul(self, other: Rat) -> (r: Option<Rat>)
        requires
            self.wf(),
            other.wf(),
        ensures
            r matches Some(q) ==> q.wf() && q_eqv(q.q(), q_mul(self.q(), other.q())),
            r == mul_spec(self, other),
    {
        proof {
            lemma_rat_products_bounded(self, other);
        }
        let n: i128 = (self.num as i128) * (other.num as i128);
        let d: i128 = (self.den as i128) * (other.den as i128);
        Rat::from_frac(n, d)
    }

    /// The exact quotient, when representable; the divisor must not be
    /// zero.
    pub fn div(self, other: Rat) -> (r: Option<Rat>)
        requires
            self.wf(),
            other.wf(),
            other.num != 0,
        ensures
            r matches Some(q) ==> q.wf() && q.num * (self.den as int * other.num as int) == (
            self.num as int * other.den as int) * q.den,
            r == div_spec(self, other),
    {
        proof {
            lemma_rat_products_bounded(self, other);
        }
        let n: i128 = (self.num as i128) * (other.den as i128);
        let d: i128 = (self.den as i128) * (other.num as i128);
        proof {
            assert(d != 0) by (nonlinear_arith)
                requires
                    self.den >= 1,
                    other.num != 0,
                    d == (self.den as i128) * (other.num as i128),
            ;
        }
        Rat::from_frac(n, d)
    }

    /// Whether the fraction is zero.
    pub fn is_zero(self) -> (r: bool)
        ensures
            r == (self.num == 0),
    {
        self.num == 0
    }

    /// The floor of the fraction.
    pub fn floor(self) -> (r: i64)
        requires
            self.wf(),
        ensures
            r == self.num as int / self.den as int,
    {
        crate::num::floor_div_i64(self.num, self.den)
    }
}

proof fn lemma_rat_products_bounded(a: Rat, b: Rat)
    requires
        a.wf(),
        b.wf(),
    ensures
        -0x1000_0000_0000_0000_0000_0000_0000_0000 <= (a.num as int) * (b.den as int)
            <= 0x1000_0000_0000_0000_0000_0000_0000_0000,
        -0x1000_0000_0000_0000_0000_0000_0000_0000 <= (b.num as int) * (a.den as int)
            <= 0x1000_0000_0000_0000_0000_0000_0000_0000,
        -0x1000_0000_0000_0000_0000_0000_0000_0000 <= (a.num as int) * (b.num as int)
            <= 0x1000_0000_0000_0000_0000_0000_0000_0000,
        0 < (a.den as int) * (b.den as int) <= 0x1000_0000_0000_0000_0000_0000_0000_0000,
{
    assert(-0x1000_0000_0000_0000_0000_0000_0000_0000 <= (a.num as int) * (b.den as int)
        <= 0x1000_0000_0000_0000_0000_0000_0000_0000) by (nonlinear_arith)
        requires
            -RAT_MAX <= a.num <= RAT_MAX,
            1 <= b.den <= RAT_MAX,
    ;
    assert(-0x1000_0000_0000_0000_0000_0000_0000_0000 <= (b.num as int) * (a.den as int)
        <= 0x1000_0000_0000_0000_0000_0000_0000_0000) by (nonlinear_arith)
        requires
            -RAT_MAX <= b.num <= RAT_MAX,
            1 <= a.den <= RAT_MAX,
    ;
    assert(-0x1000_0000_0000_0000_0000_0000_0000_0000 <= (a.num as int) * (b.num as int)
        <= 0x1000_0000_0000_0000_0000_0000_0000_0000) by (nonlinear_arith)
        requires
            -RAT_MAX <= a.num <= RAT_MAX,
            -RAT_MAX <= b.num <= RAT_MAX,
    ;
    assert(0 < (a.den as int) * (b.den as int) <= 0x1000_0000_0000_0000_0000_0000_0000_0000)
        by (nonlinear_arith)
        requires
            1 <= a.den <= RAT_MAX,
            1 <= b.den <= RAT_MAX,
    ;
}

} // verus!
