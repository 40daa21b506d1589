//! Pattern and color utilities: pure functions from coordinates, time and
//! parameters to scalars or RGBA colors, in fixed-point arithmetic.

use vstd::prelude::*;

verus! {

use crate::fixed::{fmul, fmul_spec, floor_div, floor_mod, FIXED_LIM, SCALE};
use crate::math::{saturate, saturate_spec, smoothstep, smoothstep_spec};
use crate::sqrt::{isqrt, isqrt_spec, lemma_isqrt_spec_bounds};
use crate::trig::{sin_fixed, sin_spec};
use crate::vec::{Vec2, Vec3, Vec4};
use vstd::arithmetic::div_mod::{
    lemma_div_is_ordered,
    lemma_div_multiples_vanish,
    lemma_div_pos_is_pos,
    lemma_fundamental_div_mod,
    lemma_fundamental_div_mod_converse_mod,
};

/// Width of the transition band of [`circle_pattern`], one hundredth of a
/// unit on each side of the radius.
pub const EDGE_SMOOTHNESS: i64 = 10_000;

/// Magnitude bound on coordinates handed to [`circle_pattern`], so that the
/// squared distance between two of them fits in `i64`.
pub const COORD_LIM: i64 = 1_000_000_000;

/// Magnitude bound on time arguments, leaving room in `i64` for the phase
/// offsets added to them.
pub const TIME_LIM: i64 = 4_000_000_000_000_000_000;

/// A sine value rescaled from `[-SCALE, SCALE]` to the unit interval.
pub open spec fn animated_channel_spec(time: int) -> int {
    (sin_spec(time) + SCALE) / 2
}

/// An RGBA color whose channels oscillate with time: phase-shifted sines
/// rescaled to the unit interval, phases `0`, `2` and `4` units for red,
/// green and blue, alpha exactly one.
pub open spec fn animated_color_spec(time: int) -> Vec4 {
    Vec4 {
        x: animated_channel_spec(time) as i64,
        y: animated_channel_spec(time + 2 * SCALE) as i64,
        z: animated_channel_spec(time + 4 * SCALE) as i64,
        w: SCALE,
    }
}

/// One rescaled sine channel.
fn animated_channel(time: i64) -> (c: i64)
    requires
        i64::MIN < time,
    ensures
        c == animated_channel_spec(time as int),
        0 <= c <= SCALE,
{
    let s = sin_fixed(time);
    proof {
        lemma_div_pos_is_pos(s + SCALE, 2);
        lemma_div_is_ordered(s + SCALE, 2 * SCALE, 2);
        lemma_div_multiples_vanish(SCALE as int, 2);
    }
    (s + SCALE) / 2
}

/// Color that oscillates over time. Every channel stays in `[0, SCALE]` for
/// any time, and the alpha is exactly `SCALE`.
pub fn animated_color(time: i64) -> (c: Vec4)
    requires
        -TIME_LIM <= time <= TIME_LIM,
    ensures
        c == animated_color_spec(time as int),
        0 <= c.x <= SCALE,
        0 <= c.y <= SCALE,
        0 <= c.z <= SCALE,
        c.w == SCALE,
{
    let r = animated_channel(time);
    let g = animated_channel(time + 2 * SCALE);
    let b = animated_channel(time + 4 * SCALE);
    Vec4 { x: r, y: g, z: b, w: SCALE }
}

/// A two-axis linear gradient over UV space: `(u, v, 1 - u, 1)`. Nothing is
/// clamped; channels stay in range only for UV inputs in the unit square.
pub open spec fn uv_gradient_spec(uv: Vec2) -> Vec4 {
    Vec4 { x: uv.x, y: uv.y, z: (SCALE - uv.x) as i64, w: SCALE }
}

/// Gradient based on UV coordinates.
pub fn uv_gradient(uv: Vec2) -> (c: Vec4)
    requires
        i64::MIN + SCALE < uv.x,
    ensures
        c == uv_gradient_spec(uv),
{
    Vec4 { x: uv.x, y: uv.y, z: SCALE - uv.x, w: SCALE }
}

/// Squared distance between two fixed-point coordinates, in ticks of
/// `SCALE * SCALE` per unit.
pub open spec fn dist_sq_spec(uv: Vec2, center: Vec2) -> int {
    (uv.x - center.x) * (uv.x - center.x) + (uv.y - center.y) * (uv.y - center.y)
}

/// Full brightness at the center, falling to zero over a transition band of
/// `EDGE_SMOOTHNESS` on each side of the radius.
pub open spec fn circle_spec(uv: Vec2, center: Vec2, radius: int) -> int {
    SCALE - smoothstep_spec(
        radius - EDGE_SMOOTHNESS,
        radius + EDGE_SMOOTHNESS,
        isqrt_spec(dist_sq_spec(uv, center)),
    )
}

/// Circular pattern: `SCALE` at and around the center, `0` beyond the
/// radius, a smooth falloff over the transition band between.
pub fn circle_pattern(uv: Vec2, center: Vec2, radius: i64) -> (r: i64)
    requires
        -COORD_LIM <= uv.x <= COORD_LIM,
        -COORD_LIM <= uv.y <= COORD_LIM,
        -COORD_LIM <= center.x <= COORD_LIM,
        -COORD_LIM <= center.y <= COORD_LIM,
        -COORD_LIM <= radius <= COORD_LIM,
    ensures
        r == circle_spec(uv, center, radius as int),
        0 <= r <= SCALE,
{
    let dx = uv.x - center.x;
    let dy = uv.y - center.y;
    proof {
        assert(0 <= (dx as int) * (dx as int) <= 0x3800_0000_0000_0000) by (nonlinear_arith)
            requires
                -2_000_000_000 <= dx <= 2_000_000_000,
        ;
        assert(0 <= (dy as int) * (dy as int) <= 0x3800_0000_0000_0000) by (nonlinear_arith)
            requires
                -2_000_000_000 <= dy <= 2_000_000_000,
        ;
    }
    let sq = dx * dx + dy * dy;
    let dist_u = isqrt(sq as u64);
    proof {
        assert(dist_u <= 3_000_000_000) by (nonlinear_arith)
            requires
                (dist_u as int) * (dist_u as int) <= sq as int,
                sq <= 0x7000_0000_0000_0000,
        ;
    }
    let dist = dist_u as i64;
    let s = smoothstep(radius - EDGE_SMOOTHNESS, radius + EDGE_SMOOTHNESS, dist);
    SCALE - s
}

/// At the center the circle pattern is at full brightness, for any radius of
/// at least the transition band's width.
pub proof fn lemma_circle_center(center: Vec2, radius: int)
    requires
        EDGE_SMOOTHNESS <= radius,
    ensures
        circle_spec(center, center, radius) == SCALE,
{
    assert(dist_sq_spec(center, center) == 0) by (nonlinear_arith);
    assert(isqrt_spec(0) == 0);
}

/// Beyond the transition band the circle pattern is exactly zero: wherever
/// the squared distance from the center reaches the band's outer edge.
pub proof fn lemma_circle_far(uv: Vec2, center: Vec2, radius: int)
    requires
        radius >= 0,
        (radius + EDGE_SMOOTHNESS) * (radius + EDGE_SMOOTHNESS) <= dist_sq_spec(uv, center),
    ensures
        circle_spec(uv, center, radius) == 0,
{
    let n = dist_sq_spec(uv, center);
    let d = isqrt_spec(n);
    lemma_isqrt_spec_bounds(n);
    assert(radius + EDGE_SMOOTHNESS < d + 1) by (nonlinear_arith)
        requires
            0 <= radius + EDGE_SMOOTHNESS,
            0 <= d,
            (radius + EDGE_SMOOTHNESS) * (radius + EDGE_SMOOTHNESS) <= n,
            n < (d + 1) * (d + 1),
    ;
}

/// One channel of a linear interpolation with weight `t` in `[0, SCALE]`.
pub open spec fn blend_channel_spec(a: int, b: int, t: int) -> int {
    (a * (SCALE - t) + b * t) / (SCALE as int)
}

/// Linear interpolation of two colors; the factor is clamped to the unit
/// interval first, so there is no extrapolation.
pub open spec fn blend_spec(color_a: Vec4, color_b: Vec4, factor: int) -> Vec4 {
    let t = saturate_spec(factor);
    Vec4 {
        x: blend_channel_spec(color_a.x as int, color_b.x as int, t) as i64,
        y: blend_channel_spec(color_a.y as int, color_b.y as int, t) as i64,
        z: blend_channel_spec(color_a.z as int, color_b.z as int, t) as i64,
        w: blend_channel_spec(color_a.w as int, color_b.w as int, t) as i64,
    }
}

/// One interpolated channel.
fn blend_channel(a: i64, b: i64, t: i64) -> (c: i64)
    requires
        -FIXED_LIM <= a <= FIXED_LIM,
        -FIXED_LIM <= b <= FIXED_LIM,
        0 <= t <= SCALE,
    ensures
        c == blend_channel_spec(a as int, b as int, t as int),
        -FIXED_LIM <= c <= FIXED_LIM,
{
    proof {
        assert(-3_000_000_000_000_000 <= (a as int) * (SCALE - t) <= 3_000_000_000_000_000)
            by (nonlinear_arith)
            requires
                -FIXED_LIM <= a <= FIXED_LIM,
                0 <= t <= SCALE,
        ;
        assert(-3_000_000_000_000_000 <= (b as int) * (t as int) <= 3_000_000_000_000_000)
            by (nonlinear_arith)
            requires
                -FIXED_LIM <= b <= FIXED_LIM,
                0 <= t <= SCALE,
        ;
        assert(-3_000_000_000_000_000 <= (a as int) * (SCALE - t) + (b as int) * (t as int)
            <= 3_000_000_000_000_000) by (nonlinear_arith)
            requires
                -FIXED_LIM <= a <= FIXED_LIM,
                -FIXED_LIM <= b <= FIXED_LIM,
                0 <= t <= SCALE,
        ;
    }
    let p = a * (SCALE - t) + b * t;
    let c = floor_div(p, SCALE);
    proof {
        lemma_div_is_ordered(-3_000_000_000_000_000, p as int, SCALE as int);
        lemma_div_is_ordered(p as int, 3_000_000_000_000_000, SCALE as int);
        assert((SCALE as int) * -3_000_000_000 == -3_000_000_000_000_000);
        assert((SCALE as int) * 3_000_000_000 == 3_000_000_000_000_000);
        lemma_div_multiples_vanish(-3_000_000_000, SCALE as int);
        lemma_div_multiples_vanish(3_000_000_000, SCALE as int);
    }
    c
}

/// Combine two colors with a blend factor, clamped to the unit interval.
pub fn blend_colors(color_a: Vec4, color_b: Vec4, factor: i64) -> (c: Vec4)
    requires
        -FIXED_LIM <= color_a.x <= FIXED_LIM,
        -FIXED_LIM <= color_a.y <= FIXED_LIM,
        -FIXED_LIM <= color_a.z <= FIXED_LIM,
        -FIXED_LIM <= color_a.w <= FIXED_LIM,
        -FIXED_LIM <= color_b.x <= FIXED_LIM,
        -FIXED_LIM <= color_b.y <= FIXED_LIM,
        -FIXED_LIM <= color_b.z <= FIXED_LIM,
        -FIXED_LIM <= color_b.w <= FIXED_LIM,
    ensures
        c == blend_spec(color_a, color_b, factor as int),
        -FIXED_LIM <= c.x <= FIXED_LIM,
        -FIXED_LIM <= c.y <= FIXED_LIM,
        -FIXED_LIM <= c.z <= FIXED_LIM,
        -FIXED_LIM <= c.w <= FIXED_LIM,
{
    let t = saturate(factor);
    Vec4 {
        x: blend_channel(color_a.x, color_b.x, t),
        y: blend_channel(color_a.y, color_b.y, t),
        z: blend_channel(color_a.z, color_b.z, t),
        w: blend_channel(color_a.w, color_b.w, t),
    }
}

/// A factor at or below zero returns the first color unchanged; one at or
/// above `SCALE` returns the second.
pub proof fn lemma_blend_endpoints(color_a: Vec4, color_b: Vec4, factor: int)
    ensures
        factor <= 0 ==> blend_spec(color_a, color_b, factor) == color_a,
        factor >= SCALE ==> blend_spec(color_a, color_b, factor) == color_b,
{
    if factor <= 0 {
        lemma_blend_channel_left(color_a.x as int, color_b.x as int);
        lemma_blend_channel_left(color_a.y as int, color_b.y as int);
        lemma_blend_channel_left(color_a.z as int, color_b.z as int);
        lemma_blend_channel_left(color_a.w as int, color_b.w as int);
    }
    if factor >= SCALE {
        lemma_blend_channel_right(color_a.x as int, color_b.x as int);
        lemma_blend_channel_right(color_a.y as int, color_b.y as int);
        lemma_blend_channel_right(color_a.z as int, color_b.z as int);
        lemma_blend_channel_right(color_a.w as int, color_b.w as int);
    }
}

/// An interpolated channel lies between the two channels it mixes.
pub proof fn lemma_blend_channel_bounds(a: int, b: int, t: int)
    requires
        0 <= t <= SCALE,
    ensures
        a <= b ==> a <= blend_channel_spec(a, b, t) <= b,
        b <= a ==> b <= blend_channel_spec(a, b, t) <= a,
{
    let sc = SCALE as int;
    if a <= b {
        assert(sc * a <= a * (sc - t) + b * t <= sc * b) by (nonlinear_arith)
            requires
                0 <= t <= sc,
                a <= b,
        ;
        lemma_div_is_ordered(sc * a, a * (sc - t) + b * t, sc);
        lemma_div_is_ordered(a * (sc - t) + b * t, sc * b, sc);
    } else {
        assert(sc * b <= a * (sc - t) + b * t <= sc * a) by (nonlinear_arith)
            requires
                0 <= t <= sc,
                b <= a,
        ;
        lemma_div_is_ordered(sc * b, a * (sc - t) + b * t, sc);
        lemma_div_is_ordered(a * (sc - t) + b * t, sc * a, sc);
    }
    lemma_div_multiples_vanish(a, sc);
    lemma_div_multiples_vanish(b, sc);
}

/// Weight zero hands the first channel back.
proof fn lemma_blend_channel_left(a: int, b: int)
    ensures
        blend_channel_spec(a, b, 0) == a,
{
    assert(a * (SCALE - 0) + b * 0 == (SCALE as int) * a) by (nonlinear_arith);
    lemma_div_multiples_vanish(a, SCALE as int);
}

/// Weight `SCALE` hands the second channel back.
proof fn lemma_blend_channel_right(a: int, b: int)
    ensures
        blend_channel_spec(a, b, SCALE as int) == b,
{
    assert(a * (SCALE - (SCALE as int)) + b * (SCALE as int) == (SCALE as int) * b)
        by (nonlinear_arith);
    lemma_div_multiples_vanish(b, SCALE as int);
}

/// A sine of position and time, scaled by the amplitude.
pub open spec fn wave_spec(pos: int, time: int, frequency: int, amplitude: int) -> int {
    fmul_spec(sin_spec(fmul_spec(pos, frequency) + time), amplitude)
}

/// Wave pattern `sin(pos * frequency + time) * amplitude`, always within
/// `[-amplitude, amplitude]` for a nonnegative amplitude.
pub fn wave_pattern(pos: i64, time: i64, frequency: i64, amplitude: i64) -> (w: i64)
    requires
        -FIXED_LIM <= pos <= FIXED_LIM,
        -TIME_LIM <= time <= TIME_LIM,
        -FIXED_LIM <= frequency <= FIXED_LIM,
        -FIXED_LIM <= amplitude <= FIXED_LIM,
    ensures
        w == wave_spec(pos as int, time as int, frequency as int, amplitude as int),
        amplitude >= 0 ==> -amplitude <= w <= amplitude,
        amplitude <= 0 ==> amplitude <= w <= -amplitude,
{
    let phase = fmul(pos, frequency) + time;
    let s = sin_fixed(phase);
    let w = fmul(s, amplitude);
    proof {
        let amp = amplitude as int;
        let sc = SCALE as int;
        if amp >= 0 {
            assert((sc * (-amp) <= (s as int) * amp <= sc * amp)) by (nonlinear_arith)
                requires
                    -sc <= s <= sc,
                    amp >= 0,
            ;
            lemma_div_is_ordered(sc * (-amp), (s as int) * amp, sc);
            lemma_div_is_ordered((s as int) * amp, sc * amp, sc);
            lemma_div_multiples_vanish(-amp, sc);
            lemma_div_multiples_vanish(amp, sc);
        } else {
            assert((sc * amp <= (s as int) * amp <= sc * (-amp))) by (nonlinear_arith)
                requires
                    -sc <= s <= sc,
                    amp < 0,
            ;
            lemma_div_is_ordered(sc * amp, (s as int) * amp, sc);
            lemma_div_is_ordered((s as int) * amp, sc * (-amp), sc);
            lemma_div_multiples_vanish(amp, sc);
            lemma_div_multiples_vanish(-amp, sc);
        }
    }
    w
}

/// A direction component remapped from `[-SCALE, SCALE]` to the unit
/// interval.
pub open spec fn direction_channel_spec(d: int) -> int {
    (d + SCALE) / 2
}

/// A direction remapped component-wise to a color, alpha one. Nothing is
/// clamped; channels stay in range only for components in
/// `[-SCALE, SCALE]`.
pub open spec fn direction_to_color_spec(dir: Vec3) -> Vec4 {
    Vec4 {
        x: direction_channel_spec(dir.x as int) as i64,
        y: direction_channel_spec(dir.y as int) as i64,
        z: direction_channel_spec(dir.z as int) as i64,
        w: SCALE,
    }
}

/// One remapped direction component.
fn direction_channel(d: i64) -> (c: i64)
    requires
        d <= i64::MAX - SCALE,
    ensures
        c == direction_channel_spec(d as int),
        -SCALE <= d <= SCALE ==> 0 <= c <= SCALE,
{
    let c = floor_div(d + SCALE, 2);
    proof {
        if -SCALE <= d <= SCALE {
            lemma_div_pos_is_pos(d + SCALE, 2);
            lemma_div_is_ordered(d + SCALE, 2 * SCALE, 2);
            lemma_div_multiples_vanish(SCALE as int, 2);
        }
    }
    c
}

/// Convert a direction to a color, for debugging normals and the like.
pub fn direction_to_color(dir: Vec3) -> (c: Vec4)
    requires
        dir.x <= i64::MAX - SCALE,
        dir.y <= i64::MAX - SCALE,
        dir.z <= i64::MAX - SCALE,
    ensures
        c == direction_to_color_spec(dir),
        -SCALE <= dir.x <= SCALE ==> 0 <= c.x <= SCALE,
        -SCALE <= dir.y <= SCALE ==> 0 <= c.y <= SCALE,
        -SCALE <= dir.z <= SCALE ==> 0 <= c.z <= SCALE,
        c.w == SCALE,
{
    Vec4 {
        x: direction_channel(dir.x),
        y: direction_channel(dir.y),
        z: direction_channel(dir.z),
        w: SCALE,
    }
}

/// Index of the scaled grid cell that a coordinate falls in.
pub open spec fn cell_spec(u: int, scale: int) -> int {
    fmul_spec(u, scale) / (SCALE as int)
}

/// Zero or `SCALE` by the parity of the scaled grid cell's coordinate sum.
pub open spec fn checkerboard_spec(uv: Vec2, scale: int) -> int {
    if (cell_spec(uv.x as int, scale) + cell_spec(uv.y as int, scale)) % 2 == 0 {
        0
    } else {
        SCALE as int
    }
}

/// Index of the scaled grid cell that one coordinate falls in.
fn cell_index(u: i64, scale: i64) -> (c: i64)
    requires
        -FIXED_LIM <= u <= FIXED_LIM,
        -FIXED_LIM <= scale <= FIXED_LIM,
    ensures
        c == cell_spec(u as int, scale as int),
        -9_000_000 <= c <= 9_000_000,
{
    let f = fmul(u, scale);
    let c = floor_div(f, SCALE);
    proof {
        lemma_div_is_ordered(-9_000_000_000_000, f as int, SCALE as int);
        lemma_div_is_ordered(f as int, 9_000_000_000_000, SCALE as int);
        assert((SCALE as int) * -9_000_000 == -9_000_000_000_000);
        assert((SCALE as int) * 9_000_000 == 9_000_000_000_000);
        lemma_div_multiples_vanish(-9_000_000, SCALE as int);
        lemma_div_multiples_vanish(9_000_000, SCALE as int);
    }
    c
}

/// Checkerboard pattern over the grid of side `1 / scale` in UV space.
pub fn checkerboard(uv: Vec2, scale: i64) -> (v: i64)
    requires
        -FIXED_LIM <= uv.x <= FIXED_LIM,
        -FIXED_LIM <= uv.y <= FIXED_LIM,
        -FIXED_LIM <= scale <= FIXED_LIM,
    ensures
        v == checkerboard_spec(uv, scale as int),
        v == 0 || v == SCALE,
{
    let cx = cell_index(uv.x, scale);
    let cy = cell_index(uv.y, scale);
    let p = floor_mod(cx + cy, 2);
    if p == 0 {
        0
    } else {
        SCALE
    }
}

/// Integers that differ by one have different parities.
proof fn lemma_parity_flip(n: int)
    ensures
        (n + 1) % 2 != n % 2,
{
    lemma_fundamental_div_mod(n, 2);
    let q = n / 2;
    let r = n % 2;
    if r == 0 {
        lemma_fundamental_div_mod_converse_mod(n + 1, 2, q, 1);
    } else {
        assert(n + 1 == (q + 1) * 2 + 0) by (nonlinear_arith)
            requires
                n == 2 * q + 1,
        ;
        lemma_fundamental_div_mod_converse_mod(n + 1, 2, q + 1, 0);
    }
}

/// Two coordinates in the same scaled grid cell get the same checkerboard
/// value.
pub proof fn lemma_checkerboard_same_cell(a: Vec2, b: Vec2, scale: int)
    requires
        cell_spec(a.x as int, scale) == cell_spec(b.x as int, scale),
        cell_spec(a.y as int, scale) == cell_spec(b.y as int, scale),
    ensures
        checkerboard_spec(a, scale) == checkerboard_spec(b, scale),
{
}

/// Two coordinates in cells adjacent along one axis get different
/// checkerboard values.
pub proof fn lemma_checkerboard_adjacent(a: Vec2, b: Vec2, scale: int)
    requires
        (cell_spec(b.x as int, scale) == cell_spec(a.x as int, scale) + 1 && cell_spec(
            b.y as int,
            scale,
        ) == cell_spec(a.y as int, scale)) || (cell_spec(b.x as int, scale) == cell_spec(
            a.x as int,
            scale,
        ) && cell_spec(b.y as int, scale) == cell_spec(a.y as int, scale) + 1),
    ensures
        checkerboard_spec(a, scale) != checkerboard_spec(b, scale),
{
    let sa = cell_spec(a.x as int, scale) + cell_spec(a.y as int, scale);
    lemma_parity_flip(sa);
}

} // verus!
