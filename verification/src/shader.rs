//! The demo shader: a fullscreen-triangle vertex stage and a fragment stage
//! that composes the pattern utilities into one fixed per-pixel effect.

use vstd::prelude::*;

verus! {

use crate::fixed::{fmul, fmul_spec, floor_div, HALF, SCALE};
use crate::math::saturate_spec;
use crate::pattern::{
    animated_color, animated_color_spec, blend_colors, blend_spec, checkerboard,
    checkerboard_spec, circle_pattern, circle_spec, lemma_blend_channel_bounds, uv_gradient,
    uv_gradient_spec, wave_pattern, wave_spec,
};
use crate::vec::{vec2, vec4, Vec2, Vec4};
use vstd::arithmetic::div_mod::{lemma_div_is_ordered, lemma_div_multiples_vanish};

/// Fixed width of the demo's screen, in pixels.
pub const SCREEN_WIDTH: i64 = 800;

/// Fixed height of the demo's screen, in pixels.
pub const SCREEN_HEIGHT: i64 = 600;

/// Magnitude bound on fragment coordinates, keeping the derived UV
/// coordinate within the range the pattern functions accept.
pub const FRAG_LIM: i64 = 600_000_000_000;

/// The UV coordinate of a fragment: its pixel position divided by the
/// fixed screen size.
pub open spec fn frag_to_uv_spec(frag: Vec4) -> Vec2 {
    Vec2 { x: ((frag.x as int) / (SCREEN_WIDTH as int)) as i64, y: ((frag.y as int) / (
    SCREEN_HEIGHT as int)) as i64 }
}

/// The whole per-pixel effect: the UV gradient blended toward the animated
/// color by the centered circle mask, a fifth of a wave added to the color
/// channels, and in the corner region a half blend with the checkerboard.
pub open spec fn shade_spec(frag: Vec4) -> Vec4 {
    let uv = frag_to_uv_spec(frag);
    let gradient = uv_gradient_spec(uv);
    let animated = animated_color_spec(10 * uv.x as int);
    let circle = circle_spec(uv, Vec2 { x: HALF, y: HALF }, 300_000);
    let wave = wave_spec(uv.x as int, 2 * uv.y as int, 10 * SCALE, HALF as int);
    let wave_term = fmul_spec(wave, 200_000);
    let checker = checkerboard_spec(uv, 10 * SCALE);
    let base = blend_spec(gradient, animated, circle);
    let with_wave = Vec4 {
        x: (base.x + wave_term) as i64,
        y: (base.y + wave_term) as i64,
        z: (base.z + wave_term) as i64,
        w: base.w,
    };
    if uv.x < 300_000 && uv.y < 300_000 {
        blend_spec(
            with_wave,
            Vec4 { x: checker as i64, y: checker as i64, z: checker as i64, w: SCALE },
            HALF as int,
        )
    } else {
        with_wave
    }
}

/// Fragment stage: the color of the pixel at `frag_coord`, with the alpha
/// channel exactly one.
pub fn main_fs(frag_coord: Vec4) -> (color: Vec4)
    requires
        -FRAG_LIM <= frag_coord.x <= FRAG_LIM,
        -FRAG_LIM <= frag_coord.y <= FRAG_LIM,
    ensures
        color == shade_spec(frag_coord),
        color.w == SCALE,
{
    let ux = floor_div(frag_coord.x, SCREEN_WIDTH);
    let uy = floor_div(frag_coord.y, SCREEN_HEIGHT);
    proof {
        lemma_div_is_ordered(-(FRAG_LIM as int), frag_coord.x as int, SCREEN_WIDTH as int);
        lemma_div_is_ordered(frag_coord.x as int, FRAG_LIM as int, SCREEN_WIDTH as int);
        assert((SCREEN_WIDTH as int) * -750_000_000 == -(FRAG_LIM as int));
        assert((SCREEN_WIDTH as int) * 750_000_000 == FRAG_LIM as int);
        lemma_div_multiples_vanish(-750_000_000, SCREEN_WIDTH as int);
        lemma_div_multiples_vanish(750_000_000, SCREEN_WIDTH as int);
        lemma_div_is_ordered(-(FRAG_LIM as int), frag_coord.y as int, SCREEN_HEIGHT as int);
        lemma_div_is_ordered(frag_coord.y as int, FRAG_LIM as int, SCREEN_HEIGHT as int);
        assert((SCREEN_HEIGHT as int) * -1_000_000_000 == -(FRAG_LIM as int));
        assert((SCREEN_HEIGHT as int) * 1_000_000_000 == FRAG_LIM as int);
        lemma_div_multiples_vanish(-1_000_000_000, SCREEN_HEIGHT as int);
        lemma_div_multiples_vanish(1_000_000_000, SCREEN_HEIGHT as int);
    }
    let uv = vec2(ux, uy);
    let gradient = uv_gradient(uv);
    let fake_time = 10 * uv.x;
    let animated = animated_color(fake_time);
    let center = vec2(HALF, HALF);
    let circle = circle_pattern(uv, center, 300_000);
    let wave = wave_pattern(uv.x, 2 * uv.y, 10 * SCALE, HALF);
    let checker = checkerboard(uv, 10 * SCALE);
    let base = blend_colors(gradient, animated, circle);
    proof {
        let t = saturate_spec(circle as int);
        lemma_blend_channel_bounds(gradient.x as int, animated.x as int, t);
        lemma_blend_channel_bounds(gradient.y as int, animated.y as int, t);
        lemma_blend_channel_bounds(gradient.z as int, animated.z as int, t);
        lemma_blend_channel_bounds(gradient.w as int, animated.w as int, t);
        lemma_div_is_ordered(-100_000_000_000, (wave as int) * 200_000, SCALE as int);
        lemma_div_is_ordered((wave as int) * 200_000, 100_000_000_000, SCALE as int);
        assert((SCALE as int) * -100_000 == -100_000_000_000);
        assert((SCALE as int) * 100_000 == 100_000_000_000);
        lemma_div_multiples_vanish(-100_000, SCALE as int);
        lemma_div_multiples_vanish(100_000, SCALE as int);
    }
    let wave_term = fmul(wave, 200_000);
    let with_wave = Vec4 {
        x: base.x + wave_term,
        y: base.y + wave_term,
        z: base.z + wave_term,
        w: base.w,
    };
    let checker_color = vec4(checker, checker, checker, SCALE);
    if uv.x < 300_000 && uv.y < 300_000 {
        let corner = blend_colors(with_wave, checker_color, HALF);
        proof {
            lemma_blend_channel_bounds(with_wave.w as int, SCALE as int, saturate_spec(HALF as int));
        }
        corner
    } else {
        with_wave
    }
}

/// The three fixed clip-space positions of the fullscreen triangle:
/// (-1, -1), (3, -1) and (-1, 3), each at depth zero with unit w. The
/// triangle they span contains the whole clip-space square [-1, 1]^2
/// (see [`lemma_triangle_covers_viewport`]).
pub open spec fn fullscreen_vertex_spec(vert_id: int) -> Vec4 {
    if vert_id == 0 {
        Vec4 { x: (-SCALE) as i64, y: (-SCALE) as i64, z: 0, w: SCALE }
    } else if vert_id == 1 {
        Vec4 { x: (3 * SCALE) as i64, y: (-SCALE) as i64, z: 0, w: SCALE }
    } else {
        Vec4 { x: (-SCALE) as i64, y: (3 * SCALE) as i64, z: 0, w: SCALE }
    }
}

/// A point is in the fullscreen triangle exactly when it is on the inner
/// side of each of its three edges: the vertical edge through (-1, -1) and
/// (-1, 3), the horizontal edge through (-1, -1) and (3, -1), and the
/// hypotenuse through (3, -1) and (-1, 3), whose line is `x + y == 2`.
pub open spec fn in_fullscreen_triangle_spec(x: int, y: int) -> bool {
    -SCALE <= x && -SCALE <= y && x + y <= 2 * SCALE
}

/// The emitted triangle covers the whole viewport: every point of the
/// clip-space square `[-SCALE, SCALE]` by `[-SCALE, SCALE]` lies in it.
pub proof fn lemma_triangle_covers_viewport(x: int, y: int)
    requires
        -SCALE <= x <= SCALE,
        -SCALE <= y <= SCALE,
    ensures
        in_fullscreen_triangle_spec(x, y),
{
}

/// Vertex stage: one of three fixed clip-space positions forming a triangle
/// that fully covers the viewport, so the fragment stage runs on every
/// pixel.
pub fn main_vs(vert_id: i32) -> (pos: Vec4)
    requires
        0 <= vert_id <= 2,
    ensures
        pos == fullscreen_vertex_spec(vert_id as int),
        pos.z == 0,
        pos.w == SCALE,
{
    if vert_id == 0 {
        Vec4 { x: -SCALE, y: -SCALE, z: 0, w: SCALE }
    } else if vert_id == 1 {
        Vec4 { x: 3 * SCALE, y: -SCALE, z: 0, w: SCALE }
    } else {
        Vec4 { x: -SCALE, y: 3 * SCALE, z: 0, w: SCALE }
    }
}

} // verus!
