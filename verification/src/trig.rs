//! A fixed-point sine.
//!
//! The angle is folded into one period, and each half-period is approximated
//! by the parabola `4 * a * (PI - a) / PI^2`, which agrees with the sine at
//! `0`, the peak and `PI` and stays within `[-1, 1]` everywhere. The library
//! only ever promises the range of a sine value, never a closer agreement
//! with the transcendental function.

use vstd::prelude::*;

verus! {

use crate::fixed::{floor_div, floor_mod, SCALE};
use vstd::arithmetic::div_mod::{lemma_div_pos_is_pos, lemma_multiply_divide_lt};

/// Half a period, in fixed-point ticks.
pub const PI_FIXED: i64 = 3_141_593;

/// One full period, in fixed-point ticks.
pub const TAU_FIXED: i64 = 2 * PI_FIXED;

/// `PI_FIXED * PI_FIXED / SCALE`, rounded down: the square of the
/// half-period, rescaled to fixed-point ticks.
pub const PI_SQ_SCALED: i64 = 9_869_606;

/// The parabolic arc over one half-period, `0` at both ends, `SCALE` near
/// the middle.
pub open spec fn sin_half_spec(a: int) -> int {
    (4 * a * (PI_FIXED - a)) / (PI_SQ_SCALED as int)
}

/// Sine of a fixed-point angle: the angle folded into `[0, TAU_FIXED)`, the
/// first half-period the positive arc, the second its negation.
pub open spec fn sin_spec(x: int) -> int {
    let a = x % (TAU_FIXED as int);
    if a < PI_FIXED {
        sin_half_spec(a)
    } else {
        -sin_half_spec(a - PI_FIXED)
    }
}

/// One half-period of the parabolic sine.
fn sin_half(a: i64) -> (r: i64)
    requires
        0 <= a <= PI_FIXED,
    ensures
        r == sin_half_spec(a as int),
        0 <= r <= SCALE,
{
    proof {
        let p = PI_FIXED as int;
        assert(0 <= (4 * (a as int)) * (p - a) <= p * p) by (nonlinear_arith)
            requires
                0 <= a <= p,
        ;
        lemma_div_pos_is_pos((4 * (a as int)) * (p - a), PI_SQ_SCALED as int);
        lemma_multiply_divide_lt((4 * (a as int)) * (p - a), PI_SQ_SCALED as int, SCALE + 1);
    }
    let num = (4 * a) * (PI_FIXED - a);
    floor_div(num, PI_SQ_SCALED)
}

/// Sine of a fixed-point angle, always within `[-SCALE, SCALE]`.
pub fn sin_fixed(x: i64) -> (r: i64)
    requires
        x > i64::MIN,
    ensures
        r == sin_spec(x as int),
        -SCALE <= r <= SCALE,
{
    let a = floor_mod(x, TAU_FIXED);
    if a < PI_FIXED {
        sin_half(a)
    } else {
        -sin_half(a - PI_FIXED)
    }
}

} // verus!
