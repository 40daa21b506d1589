//! Fixed-point arithmetic core.
//!
//! A quantity is stored as an `i64` holding `value * SCALE`, so one unit is
//! `SCALE` and one hundredth of a unit is `SCALE / 100`. All derived
//! operations round toward negative infinity (floor), which matches the
//! Euclidean `/` and `%` of specification arithmetic whenever the divisor is
//! positive.

use vstd::prelude::*;

verus! {

use vstd::arithmetic::div_mod::{
    lemma_div_is_ordered,
    lemma_div_multiples_vanish,
    lemma_fundamental_div_mod,
    lemma_fundamental_div_mod_converse_div,
    lemma_fundamental_div_mod_converse_mod,
};

/// Number of raw ticks in one unit: 1.0 is stored as `SCALE`.
pub const SCALE: i64 = 1_000_000;

/// Half a unit: 0.5 in fixed-point.
pub const HALF: i64 = 500_000;

/// Magnitude bound under which the product of two raw values fits in `i64`.
pub const FIXED_LIM: i64 = 3_000_000_000;

/// Floor division by a positive divisor: the exec counterpart of the
/// Euclidean `/` of specification arithmetic.
pub fn floor_div(a: i64, b: i64) -> (q: i64)
    requires
        b > 0,
        a > i64::MIN,
    ensures
        q == a as int / b as int,
{
    let t = a / b;
    let r = a % b;
    if r != 0 && a < 0 {
        proof {
            let n = -(a as int);
            lemma_fundamental_div_mod(n, b as int);
            let q1 = n / (b as int);
            let r1 = n % (b as int);
            assert(a as int == (-q1 - 1) * (b as int) + ((b as int) - r1)) by (nonlinear_arith)
                requires
                    a as int == -n,
                    n == (b as int) * q1 + r1,
            ;
            lemma_fundamental_div_mod_converse_div(
                a as int,
                b as int,
                -q1 - 1,
                (b as int) - r1,
            );
        }
        t - 1
    } else {
        proof {
            if a < 0 {
                let n = -(a as int);
                lemma_fundamental_div_mod(n, b as int);
                let q1 = n / (b as int);
                assert(a as int == (-q1) * (b as int) + 0) by (nonlinear_arith)
                    requires
                        a as int == -n,
                        n == (b as int) * q1 + 0,
                ;
                lemma_fundamental_div_mod_converse_div(a as int, b as int, -q1, 0);
            }
        }
        t
    }
}

/// Floor remainder by a positive divisor: the exec counterpart of the
/// Euclidean `%` of specification arithmetic, always in `[0, b)`.
pub fn floor_mod(a: i64, b: i64) -> (m: i64)
    requires
        b > 0,
        a > i64::MIN,
    ensures
        m == a as int % b as int,
        0 <= m < b,
{
    let r = a % b;
    if r < 0 {
        proof {
            let n = -(a as int);
            lemma_fundamental_div_mod(n, b as int);
            let q1 = n / (b as int);
            let r1 = n % (b as int);
            assert(a as int == (-q1 - 1) * (b as int) + ((b as int) - r1)) by (nonlinear_arith)
                requires
                    a as int == -n,
                    n == (b as int) * q1 + r1,
            ;
            lemma_fundamental_div_mod_converse_mod(
                a as int,
                b as int,
                -q1 - 1,
                (b as int) - r1,
            );
        }
        r + b
    } else {
        proof {
            if a < 0 {
                let n = -(a as int);
                lemma_fundamental_div_mod(n, b as int);
                let q1 = n / (b as int);
                assert(a as int == (-q1) * (b as int) + 0) by (nonlinear_arith)
                    requires
                        a as int == -n,
                        n == (b as int) * q1 + 0,
                ;
                lemma_fundamental_div_mod_converse_mod(a as int, b as int, -q1, 0);
            }
        }
        r
    }
}

/// Product of two fixed-point values, rescaled back: `a * b / SCALE`,
/// rounded toward negative infinity.
pub open spec fn fmul_spec(a: int, b: int) -> int {
    (a * b) / (SCALE as int)
}

/// Fixed-point multiplication.
pub fn fmul(a: i64, b: i64) -> (r: i64)
    requires
        -FIXED_LIM <= a <= FIXED_LIM,
        -FIXED_LIM <= b <= FIXED_LIM,
    ensures
        r == fmul_spec(a as int, b as int),
        -9_000_000_000_000 <= r <= 9_000_000_000_000,
{
    proof {
        assert(-9_000_000_000_000_000_000 <= (a as int) * (b as int) <= 9_000_000_000_000_000_000)
            by (nonlinear_arith)
            requires
                -FIXED_LIM <= a <= FIXED_LIM,
                -FIXED_LIM <= b <= FIXED_LIM,
        ;
    }
    let p = a * b;
    let q = floor_div(p, SCALE);
    proof {
        lemma_div_is_ordered(-9_000_000_000_000_000_000, p as int, SCALE as int);
        lemma_div_is_ordered(p as int, 9_000_000_000_000_000_000, SCALE as int);
        assert((SCALE as int) * -9_000_000_000_000 == -9_000_000_000_000_000_000);
        assert((SCALE as int) * 9_000_000_000_000 == 9_000_000_000_000_000_000);
        lemma_div_multiples_vanish(-9_000_000_000_000, SCALE as int);
        lemma_div_multiples_vanish(9_000_000_000_000, SCALE as int);
    }
    q
}

} // verus!
