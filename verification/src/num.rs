//! Small verified integer arithmetic helpers shared by the pipeline.

use vstd::prelude::*;

verus! {

/// Mathematical floor square root of a natural number.
pub open spec fn sqrt_floor(n: nat) -> nat {
    choose|r: nat| #[trigger] (r * r) <= n < (r + 1) * (r + 1)
}

/// `r` is the floor square root of `n`.
pub open spec fn is_sqrt_floor(n: nat, r: nat) -> bool {
    r * r <= n < (r + 1) * (r + 1)
}

/// The floor square root is unique.
pub proof fn lemma_sqrt_floor_unique(n: nat, r1: nat, r2: nat)
    requires
        is_sqrt_floor(n, r1),
        is_sqrt_floor(n, r2),
    ensures
        r1 == r2,
{
    if r1 < r2 {
        assert((r1 + 1) * (r1 + 1) <= r2 * r2) by (nonlinear_arith)
            requires r1 + 1 <= r2;
    }
    if r2 < r1 {
        assert((r2 + 1) * (r2 + 1) <= r1 * r1) by (nonlinear_arith)
            requires r2 + 1 <= r1;
    }
}

/// Every natural number has a floor square root, and `sqrt_floor` denotes it.
pub proof fn lemma_sqrt_floor_exists(n: nat)
    ensures
        is_sqrt_floor(n, sqrt_floor(n)),
    decreases n,
{
    if n == 0 {
        assert(0nat * 0nat <= n < (0nat + 1) * (0nat + 1)) by (nonlinear_arith)
            requires n == 0;
        assert(is_sqrt_floor(n, 0));
    } else {
        lemma_sqrt_floor_exists((n - 1) as nat);
        let r = sqrt_floor((n - 1) as nat);
        if n < (r + 1) * (r + 1) {
            assert(is_sqrt_floor(n, r));
        } else {
            assert((r + 1) * (r + 1) == n);
            assert((r + 2) * (r + 2) > n) by (nonlinear_arith)
                requires (r + 1) * (r + 1) == n;
            assert(is_sqrt_floor(n, r + 1));
        }
    }
}

proof fn lemma_sqrt_floor_of(n: nat, r: nat)
    requires
        is_sqrt_floor(n, r),
    ensures
        sqrt_floor(n) == r,
{
    assert(is_sqrt_floor(n, r));
    let w = choose|w: nat| #[trigger] (w * w) <= n < (w + 1) * (w + 1);
    lemma_sqrt_floor_unique(n, w, r);
}

/// Integer square root, rounded down.
pub fn isqrt(n: u64) -> (r: u64)
    ensures
        is_sqrt_floor(n as nat, r as nat),
        r == sqrt_floor(n as nat),
{
    // Binary search over the result range; 2^32 squared is the first
    // square beyond u64::MAX.
    let mut lo: u64 = 0;
    let mut hi: u64 = 4294967296;
    proof {
        assert((4294967296u64 as nat) * (4294967296u64 as nat) > n as nat) by (nonlinear_arith)
            requires n <= u64::MAX;
    }
    while lo + 1 < hi
        invariant
            lo < hi <= 4294967296,
            (lo as nat) * (lo as nat) <= n as nat,
            (hi as nat) * (hi as nat) > n as nat,
        decreases hi - lo,
    {
        let mid: u64 = lo + (hi - lo) / 2;
        assert(mid < 4294967296);
        proof {
            assert((mid as nat) * (mid as nat) < 0x1_0000_0000_0000_0000) by (nonlinear_arith)
                requires mid < 4294967296;
        }
        let sq: u128 = (mid as u128) * (mid as u128);
        if sq <= n as u128 {
            lo = mid;
        } else {
            hi = mid;
        }
    }
    proof {
        assert((lo + 1) * (lo + 1) > n as nat);
        lemma_sqrt_floor_of(n as nat, lo as nat);
    }
    lo
}

/// Euclid's recursion: the divisor that `common_divisor` computes.
pub open spec fn euclid(a: nat, b: nat) -> nat
    decreases b,
{
    if b == 0 {
        a
    } else {
        euclid(b, a % b)
    }
}

/// A common divisor of `a` and `b`, computed by Euclid's algorithm.
pub fn common_divisor(a: u128, b: u128) -> (g: u128)
    requires
        a > 0,
    ensures
        g > 0,
        a as int % g as int == 0,
        b as int % g as int == 0,
        g == euclid(a as nat, b as nat),
    decreases b,
{
    if b == 0 {
        proof {
            vstd::arithmetic::div_mod::lemma_mod_self_0(a as int);
            assert(0int % a as int == 0) by (nonlinear_arith)
                requires a > 0;
        }
        a
    } else {
        let r: u128 = a % b;
        let g: u128 = common_divisor(b, r);
        proof {
            vstd::arithmetic::div_mod::lemma_fundamental_div_mod(a as int, b as int);
            let q = a as int / b as int;
            let p = b as int / g as int;
            let s = r as int / g as int;
            vstd::arithmetic::div_mod::lemma_fundamental_div_mod(b as int, g as int);
            vstd::arithmetic::div_mod::lemma_fundamental_div_mod(r as int, g as int);
            assert(a as int == g as int * (q * p + s)) by (nonlinear_arith)
                requires
                    a as int == b as int * q + r as int,
                    b as int == g as int * p,
                    r as int == g as int * s,
            ;
            assert((g as int * (q * p + s)) % g as int == 0) by {
                vstd::arithmetic::div_mod::lemma_mod_multiples_basic(q * p + s, g as int);
            }
        }
        g
    }
}

/// Floor division of `n` by a positive `d`: the unique integer `q` with
/// `d * q <= n < d * (q + 1)`, matching specification-level `/`.
pub fn floor_div_i64(n: i64, d: i64) -> (q: i64)
    requires
        d > 0,
        n > i64::MIN,
    ensures
        q == n as int / d as int,
{
    if n >= 0 {
        let qm: u64 = (n as u64) / (d as u64);
        qm as i64
    } else {
        let nm: u64 = (-n) as u64;
        let qm: u64 = (nm + (d as u64) - 1) / (d as u64);
        proof {
            let nmi = nm as int;
            let di = d as int;
            let qi = qm as int;
            vstd::arithmetic::div_mod::lemma_fundamental_div_mod(nmi + di - 1, di);
            assert(di * qi <= nmi + di - 1);
            assert(di * qi > nmi - 1) by (nonlinear_arith)
                requires
                    di >= 1,
                    qi == (nmi + di - 1) / di,
                    di * qi + ((nmi + di - 1) % di) == nmi + di - 1,
                    0 <= (nmi + di - 1) % di < di,
            ;
            let r = di * qi - nmi;
            assert(0 <= r < di);
            assert(-nmi == (-qi) * di + r) by (nonlinear_arith)
                requires r == di * qi - nmi;
            vstd::arithmetic::div_mod::lemma_fundamental_div_mod_converse_div(
                -nmi,
                di,
                -qi,
                r,
            );
            assert(qi <= nmi) by (nonlinear_arith)
                requires
                    di >= 1,
                    nmi >= 1,
                    di * qi <= nmi + di - 1,
            ;
        }
        -(qm as i64)
    }
}

} // verus!
