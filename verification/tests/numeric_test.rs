//! Tests for the numeric core: floor division, fixed-point multiplication,
//! integer square root, sine, smoothstep, and the remaining pattern edges.

use shader_utils::blend_colors;
use shader_utils::checkerboard;
use shader_utils::circle_pattern;
use shader_utils::direction_to_color;
use shader_utils::fixed::floor_div;
use shader_utils::fixed::floor_mod;
use shader_utils::fixed::fmul;
use shader_utils::smoothstep;
use shader_utils::sqrt::isqrt;
use shader_utils::trig::sin_fixed;
use shader_utils::trig::PI_FIXED;
use shader_utils::vec2;
use shader_utils::vec3;
use shader_utils::vec4;
use shader_utils::wave_pattern;
use shader_utils::EDGE_SMOOTHNESS;
use shader_utils::HALF;
use shader_utils::SCALE;

#[test]
fn test_floor_div_rounds_down() {
    assert_eq!(floor_div(7, 2), 3);
    assert_eq!(floor_div(-7, 2), -4);
    assert_eq!(floor_div(-8, 2), -4);
    assert_eq!(floor_mod(7, 2), 1);
    assert_eq!(floor_mod(-7, 2), 1);
    assert_eq!(floor_mod(-8, 2), 0);
}

#[test]
fn test_fmul_rescales() {
    assert_eq!(fmul(HALF, HALF), 250_000);
    assert_eq!(fmul(-HALF, HALF), -250_000);
    assert_eq!(fmul(2 * SCALE, 3 * SCALE), 6 * SCALE);
    assert_eq!(fmul(SCALE, -SCALE), -SCALE);
}

#[test]
fn test_isqrt_window() {
    assert_eq!(isqrt(0), 0);
    assert_eq!(isqrt(1), 1);
    assert_eq!(isqrt(8), 2);
    assert_eq!(isqrt(9), 3);
    assert_eq!(isqrt(1_000_000), 1_000);
    assert_eq!(isqrt(999_999), 999);
}

#[test]
fn test_sin_fixed_range_and_zeroes() {
    assert_eq!(sin_fixed(0), 0);
    assert_eq!(sin_fixed(PI_FIXED), 0);
    // Near the peak and the trough
    assert!(sin_fixed(PI_FIXED / 2) > 990_000);
    assert!(sin_fixed(PI_FIXED + PI_FIXED / 2) < -990_000);
    for i in -50i64..50 {
        let s = sin_fixed(i * 200_000);
        assert!(s >= -SCALE && s <= SCALE);
    }
}

#[test]
fn test_smoothstep_edges_and_midpoint() {
    assert_eq!(smoothstep(0, SCALE, -SCALE), 0);
    assert_eq!(smoothstep(0, SCALE, 0), 0);
    assert_eq!(smoothstep(0, SCALE, SCALE), SCALE);
    assert_eq!(smoothstep(0, SCALE, 2 * SCALE), SCALE);
    // At the midpoint the Hermite curve gives exactly one half
    assert_eq!(smoothstep(0, SCALE, HALF), HALF);
    // 0.3 * 0.3 * (3 - 2 * 0.3) = 0.216
    assert_eq!(smoothstep(0, SCALE, 300_000), 216_000);
}

#[test]
fn test_smoothstep_monotonic() {
    let mut previous: i64 = 0;
    for i in 0i64..20 {
        let x: i64 = i * 50_000;
        let s = smoothstep(0, SCALE, x);
        assert!(s >= previous, "Smoothstep should be nondecreasing");
        previous = s;
    }
}

#[test]
fn test_direction_to_color_remaps() {
    assert_eq!(direction_to_color(vec3(0, 0, 0)), vec4(HALF, HALF, HALF, SCALE));
    assert_eq!(direction_to_color(vec3(SCALE, -SCALE, SCALE)), vec4(SCALE, 0, SCALE, SCALE));
}

#[test]
fn test_blend_factor_is_clamped() {
    let red = vec4(SCALE, 0, 0, SCALE);
    let blue = vec4(0, 0, SCALE, SCALE);
    assert_eq!(blend_colors(red, blue, -SCALE), red);
    assert_eq!(blend_colors(red, blue, 2 * SCALE), blue);
}

#[test]
fn test_circle_pattern_band_edges() {
    let center = vec2(HALF, HALF);
    // The smallest radius the full-brightness law covers
    assert_eq!(circle_pattern(center, center, EDGE_SMOOTHNESS), SCALE);
    // Exactly at the outer edge of the transition band the pattern is zero:
    // a point 0.31 to the right of the center, radius 0.3
    let outer = circle_pattern(vec2(HALF + 310_000, HALF), center, 300_000);
    assert_eq!(outer, 0);
}

#[test]
fn test_checkerboard_negative_coordinates() {
    // Cell (-1, 0) has an odd coordinate sum
    assert_eq!(checkerboard(vec2(-100_000, 100_000), 4 * SCALE), SCALE);
    // Cell (-1, -1) has an even one
    assert_eq!(checkerboard(vec2(-100_000, -100_000), 4 * SCALE), 0);
}

#[test]
fn test_wave_pattern_zero_phase() {
    // sin(0) is exactly zero, whatever the amplitude
    assert_eq!(wave_pattern(0, 0, SCALE, 2 * SCALE), 0);
    assert_eq!(wave_pattern(0, 0, 10 * SCALE, HALF), 0);
}
