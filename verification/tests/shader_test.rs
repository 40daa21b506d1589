//! Tests for the shader stages and the surface-size clamp.

use shader_utils::clamp_surface_size;
use shader_utils::main_fs;
use shader_utils::main_vs;
use shader_utils::vec4;
use shader_utils::SCALE;

#[test]
fn test_main_vs_fullscreen_triangle() {
    // The three fixed clip-space positions of the fullscreen triangle
    assert_eq!(main_vs(0), vec4(-SCALE, -SCALE, 0, SCALE));
    assert_eq!(main_vs(1), vec4(3 * SCALE, -SCALE, 0, SCALE));
    assert_eq!(main_vs(2), vec4(-SCALE, 3 * SCALE, 0, SCALE));

    // Every clip-space corner is on the inner side of all three edges, so
    // the triangle covers the whole viewport
    let corners = [
        (-SCALE, -SCALE),
        (SCALE, -SCALE),
        (-SCALE, SCALE),
        (SCALE, SCALE),
    ];
    for (x, y) in corners {
        assert!(x >= -SCALE && y >= -SCALE && x + y <= 2 * SCALE);
    }
}

#[test]
fn test_main_fs_opaque() {
    // The fragment stage always emits a fully opaque color
    let center_pixel = main_fs(vec4(400 * SCALE, 300 * SCALE, 0, SCALE));
    assert_eq!(center_pixel.w, SCALE);

    // A pixel in the checkerboard corner region (uv.x and uv.y below 0.3)
    let corner_pixel = main_fs(vec4(80 * SCALE, 60 * SCALE, 0, SCALE));
    assert_eq!(corner_pixel.w, SCALE);

    let origin_pixel = main_fs(vec4(0, 0, 0, SCALE));
    assert_eq!(origin_pixel.w, SCALE);
}

#[test]
fn test_main_fs_origin_gradient() {
    // At the origin the gradient is (0, 0, 1, 1), the circle mask is zero
    // (the center is far), the wave is sin(0) = 0, and uv (0, 0) lies in the
    // corner region, so the color is a half blend with the checkerboard
    // value of cell (0, 0), which is zero: (0, 0, 1, 1) blended halfway
    // toward (0, 0, 0, 1).
    let color = main_fs(vec4(0, 0, 0, SCALE));
    assert_eq!(color, vec4(0, 0, SCALE / 2, SCALE));
}

#[test]
fn test_clamp_surface_size() {
    assert_eq!(clamp_surface_size(0, 0), (1, 1));
    assert_eq!(clamp_surface_size(800, 600), (800, 600));
    assert_eq!(clamp_surface_size(0, 5), (1, 5));
    assert_eq!(clamp_surface_size(5, 0), (5, 1));
}
