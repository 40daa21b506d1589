//! CPU tests for the shader utilities, over fixed-point values: 1.0 is
//! `SCALE` ticks.

use shader_utils::animated_color;
use shader_utils::blend_colors;
use shader_utils::checkerboard;
use shader_utils::circle_pattern;
use shader_utils::saturate;
use shader_utils::uv_gradient;
use shader_utils::vec2;
use shader_utils::vec4;
use shader_utils::wave_pattern;
use shader_utils::HALF;
use shader_utils::SCALE;

#[test]
fn test_animated_color_range() {
    // Animated color stays in the valid range [0, SCALE]
    for i in 0i64..100 {
        let time: i64 = i * 100_000;
        let color = animated_color(time);

        assert!(color.x >= 0 && color.x <= SCALE, "Red channel out of range");
        assert!(color.y >= 0 && color.y <= SCALE, "Green channel out of range");
        assert!(color.z >= 0 && color.z <= SCALE, "Blue channel out of range");
        assert_eq!(color.w, SCALE, "Alpha should always be 1.0");
    }
}

#[test]
fn test_uv_gradient_corners() {
    // Gradient at the corners of the unit square
    let bottom_left = uv_gradient(vec2(0, 0));
    assert_eq!(bottom_left, vec4(0, 0, SCALE, SCALE));

    let top_right = uv_gradient(vec2(SCALE, SCALE));
    assert_eq!(top_right, vec4(SCALE, SCALE, 0, SCALE));
}

#[test]
fn test_circle_pattern_center() {
    let center = vec2(HALF, HALF);

    // At the center, full brightness
    let at_center = circle_pattern(center, center, 300_000);
    assert!(at_center > 990_000, "Circle should be bright at center");

    // Far outside, dark
    let far_away = circle_pattern(vec2(2 * SCALE, 2 * SCALE), center, 300_000);
    assert!(far_away < 10_000, "Circle should be dark far from center");
}

#[test]
fn test_blend_colors() {
    let red = vec4(SCALE, 0, 0, SCALE);
    let blue = vec4(0, 0, SCALE, SCALE);

    // 0% blend = all red
    let blend_0 = blend_colors(red, blue, 0);
    assert_eq!(blend_0, red);

    // 100% blend = all blue
    let blend_100 = blend_colors(red, blue, SCALE);
    assert_eq!(blend_100, blue);

    // 50% blend = purple
    let blend_50 = blend_colors(red, blue, HALF);
    assert_eq!(blend_50, vec4(HALF, 0, HALF, SCALE));
}

#[test]
fn test_wave_pattern_oscillation() {
    // The wave oscillates between -amplitude and +amplitude
    let amplitude: i64 = 2 * SCALE;
    let frequency: i64 = SCALE;

    for i in 0i64..100 {
        let pos: i64 = i * 100_000;
        let time: i64 = 0;
        let wave = wave_pattern(pos, time, frequency, amplitude);

        assert!(
            wave >= -amplitude && wave <= amplitude,
            "Wave should stay within amplitude bounds"
        );
    }
}

#[test]
fn test_checkerboard_alternates() {
    let scale: i64 = 4 * SCALE;

    // Two squares that should have different colors
    let check_00 = checkerboard(vec2(100_000, 100_000), scale);
    let check_10 = checkerboard(vec2(300_000, 100_000), scale);

    assert_ne!(check_00, check_10, "Adjacent checkerboard squares should differ");

    // The same square keeps the same value
    let check_00_again = checkerboard(vec2(150_000, 150_000), scale);
    assert_eq!(check_00, check_00_again, "Same square should have same value");
}

#[test]
fn test_saturate_clamps() {
    // Saturate clamps to the unit interval
    assert_eq!(saturate(-SCALE), 0);
    assert_eq!(saturate(HALF), HALF);
    assert_eq!(saturate(2 * SCALE), SCALE);
}
