//! Shared scalar helpers: clamp to the unit interval and smooth Hermite
//! interpolation.

use vstd::prelude::*;

verus! {

use crate::fixed::{floor_div, SCALE, FIXED_LIM};
use vstd::arithmetic::div_mod::{
    lemma_div_is_ordered,
    lemma_div_multiples_vanish,
    lemma_div_pos_is_pos,
    lemma_multiply_divide_lt,
};
use vstd::arithmetic::mul::{lemma_mul_inequality, lemma_mul_nonnegative};

/// Clamp into the unit interval `[0, SCALE]`.
pub open spec fn saturate_spec(x: int) -> int {
    if x < 0 {
        0
    } else if x > SCALE {
        SCALE as int
    } else {
        x
    }
}

/// Clamp a fixed-point scalar into `[0, SCALE]` (the unit interval).
pub fn saturate(x: i64) -> (r: i64)
    ensures
        r == saturate_spec(x as int),
        0 <= r <= SCALE,
{
    if x < 0 {
        0
    } else if x > SCALE {
        SCALE
    } else {
        x
    }
}

/// The Hermite ramp `t * t * (3 - 2 * t)` over unit-interval fixed-point
/// values, result again in `[0, SCALE]`.
pub open spec fn hermite_spec(t: int) -> int {
    (t * t * (3 * SCALE - 2 * t)) / ((SCALE as int) * (SCALE as int))
}

/// Smooth Hermite interpolation: `0` at or below `edge0`, `SCALE` at or
/// above `edge1`, an S-curve between.
pub open spec fn smoothstep_spec(edge0: int, edge1: int, x: int) -> int {
    if x <= edge0 {
        0
    } else if x >= edge1 {
        SCALE as int
    } else {
        hermite_spec(((x - edge0) * SCALE) / (edge1 - edge0))
    }
}

/// The cubic `t * t * (3 * SCALE - 2 * t)` is nondecreasing on `[0, SCALE]`.
proof fn lemma_cubic_monotone(a: int, b: int)
    requires
        0 <= a <= b <= SCALE,
    ensures
        a * a * (3 * SCALE - 2 * a) <= b * b * (3 * SCALE - 2 * b),
{
    let s = SCALE as int;
    assert(2 * (a * a + a * b + b * b) <= 3 * s * (a + b)) by (nonlinear_arith)
        requires
            0 <= a <= b <= s,
    ;
    assert(b * b * (3 * s - 2 * b) - a * a * (3 * s - 2 * a) == (b - a) * (3 * s * (a + b) - 2 * (
    a * a + a * b + b * b))) by (nonlinear_arith);
    lemma_mul_nonnegative(b - a, 3 * s * (a + b) - 2 * (a * a + a * b + b * b));
}

/// The Hermite ramp stays in the unit interval.
proof fn lemma_hermite_range(t: int)
    requires
        0 <= t <= SCALE,
    ensures
        0 <= hermite_spec(t) <= SCALE,
{
    let s = SCALE as int;
    assert(t * t * (3 * s - 2 * t) >= 0) by (nonlinear_arith)
        requires
            0 <= t <= s,
    ;
    lemma_div_pos_is_pos(t * t * (3 * s - 2 * t), s * s);
    lemma_cubic_monotone(t, s);
    assert(s * s * (3 * s - 2 * s) == s * s * s) by (nonlinear_arith);
    assert(s * s * s < s * s * (s + 1)) by (nonlinear_arith)
        requires
            s == SCALE as int,
    ;
    lemma_multiply_divide_lt(t * t * (3 * s - 2 * t), s * s, s + 1);
}

/// The interpolation parameter `(x - edge0) * SCALE / (edge1 - edge0)` lies
/// in the unit interval for `edge0 < x < edge1`.
proof fn lemma_ramp_param_range(edge0: int, edge1: int, x: int)
    requires
        edge0 < x < edge1,
    ensures
        0 <= ((x - edge0) * SCALE) / (edge1 - edge0) <= SCALE,
{
    let s = SCALE as int;
    let d = edge1 - edge0;
    lemma_mul_nonnegative(x - edge0, s);
    lemma_div_pos_is_pos((x - edge0) * s, d);
    lemma_mul_inequality(x - edge0, d, s);
    lemma_div_is_ordered((x - edge0) * s, d * s, d);
    assert(d * s == s * d);
    lemma_div_multiples_vanish(s, d);
}

/// Smooth Hermite interpolation of `x` between `edge0` and `edge1`:
/// `0` for `x <= edge0`, `SCALE` for `x >= edge1`, and the S-curve
/// `t * t * (3 - 2 * t)` of the normalized position `t` in between.
pub fn smoothstep(edge0: i64, edge1: i64, x: i64) -> (r: i64)
    requires
        edge0 < edge1,
        -FIXED_LIM <= edge0,
        edge1 <= FIXED_LIM,
        -FIXED_LIM <= x <= FIXED_LIM,
    ensures
        r == smoothstep_spec(edge0 as int, edge1 as int, x as int),
        0 <= r <= SCALE,
{
    if x <= edge0 {
        0
    } else if x >= edge1 {
        SCALE
    } else {
        proof {
            lemma_ramp_param_range(edge0 as int, edge1 as int, x as int);
        }
        let t = floor_div((x - edge0) * SCALE, edge1 - edge0);
        proof {
            assert(0 <= (t as int) * (t as int) <= (SCALE as int) * (SCALE as int))
                by (nonlinear_arith)
                requires
                    0 <= t <= SCALE,
            ;
            assert(0 <= (t as int) * (t as int) * (3 * (SCALE as int) - 2 * (t as int)) <= 3 * (
            SCALE as int) * (SCALE as int) * (SCALE as int)) by (nonlinear_arith)
                requires
                    0 <= t <= SCALE,
            ;
            lemma_hermite_range(t as int);
        }
        let tt = t * t;
        let cubic = tt * (3 * SCALE - 2 * t);
        floor_div(cubic, SCALE * SCALE)
    }
}

/// The smooth interpolation is monotonic: for `edge0 < edge1`, a larger
/// input never yields a smaller result.
pub proof fn lemma_smoothstep_monotone(edge0: int, edge1: int, x1: int, x2: int)
    requires
        edge0 < edge1,
        x1 <= x2,
    ensures
        smoothstep_spec(edge0, edge1, x1) <= smoothstep_spec(edge0, edge1, x2),
{
    let s = SCALE as int;
    let d = edge1 - edge0;
    if x1 <= edge0 {
        if edge0 < x2 < edge1 {
            lemma_ramp_param_range(edge0, edge1, x2);
            lemma_hermite_range(((x2 - edge0) * s) / d);
        }
    } else if x1 >= edge1 {
        // x2 >= x1 >= edge1: both sides are SCALE
    } else {
        if x2 >= edge1 {
            lemma_ramp_param_range(edge0, edge1, x1);
            lemma_hermite_range(((x1 - edge0) * s) / d);
        } else {
            let t1 = ((x1 - edge0) * s) / d;
            let t2 = ((x2 - edge0) * s) / d;
            lemma_ramp_param_range(edge0, edge1, x1);
            lemma_ramp_param_range(edge0, edge1, x2);
            lemma_mul_inequality(x1 - edge0, x2 - edge0, s);
            lemma_div_is_ordered((x1 - edge0) * s, (x2 - edge0) * s, d);
            lemma_cubic_monotone(t1, t2);
            lemma_div_is_ordered(t1 * t1 * (3 * s - 2 * t1), t2 * t2 * (3 * s - 2 * t2), s * s);
        }
    }
}

} // verus!
