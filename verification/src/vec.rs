//! Small vector and color types over fixed-point components.

use vstd::prelude::*;

verus! {

/// A 2D coordinate, typically a UV position with components in `[0, SCALE]`.
#[derive(Clone, Copy, Debug, PartialEq, Eq, Structural)]
pub struct Vec2 {
    pub x: i64,
    pub y: i64,
}

/// A 3D direction, typically with components in `[-SCALE, SCALE]`.
#[derive(Clone, Copy, Debug, PartialEq, Eq, Structural)]
pub struct Vec3 {
    pub x: i64,
    pub y: i64,
    pub z: i64,
}

/// An RGBA color: `x`, `y`, `z` carry red, green and blue, `w` the alpha.
#[derive(Clone, Copy, Debug, PartialEq, Eq, Structural)]
pub struct Vec4 {
    pub x: i64,
    pub y: i64,
    pub z: i64,
    pub w: i64,
}

/// Build a [`Vec2`] from its components.
pub fn vec2(x: i64, y: i64) -> (v: Vec2)
    ensures
        v == (Vec2 { x, y }),
{
    Vec2 { x, y }
}

/// Build a [`Vec3`] from its components.
pub fn vec3(x: i64, y: i64, z: i64) -> (v: Vec3)
    ensures
        v == (Vec3 { x, y, z }),
{
    Vec3 { x, y, z }
}

/// Build a [`Vec4`] from its components.
pub fn vec4(x: i64, y: i64, z: i64, w: i64) -> (v: Vec4)
    ensures
        v == (Vec4 { x, y, z, w }),
{
    Vec4 { x, y, z, w }
}

} // verus!
