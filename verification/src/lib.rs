//! Pattern and color utilities for a fullscreen shader demo, in verified
//! fixed-point arithmetic.
//!
//! Every quantity is an `i64` holding `value * SCALE` ticks (see [`fixed`]),
//! so 1.0 is `SCALE` and 0.01 is `SCALE / 100`. The pattern functions map
//! coordinates, time and parameters to scalars or RGBA colors; each carries
//! a contract pinning its result down, and the laws the library promises
//! (channel ranges, blend endpoints, checkerboard parity) are proved here.

pub mod fixed;
pub mod math;
pub mod pattern;
pub mod shader;
pub mod sqrt;
pub mod surface;
pub mod trig;
pub mod vec;

pub use crate::fixed::FIXED_LIM;
pub use crate::fixed::HALF;
pub use crate::fixed::SCALE;
pub use crate::math::saturate;
pub use crate::math::smoothstep;
pub use crate::pattern::animated_color;
pub use crate::pattern::blend_colors;
pub use crate::pattern::checkerboard;
pub use crate::pattern::circle_pattern;
pub use crate::pattern::direction_to_color;
pub use crate::pattern::uv_gradient;
pub use crate::pattern::wave_pattern;
pub use crate::pattern::COORD_LIM;
pub use crate::pattern::EDGE_SMOOTHNESS;
pub use crate::pattern::TIME_LIM;
pub use crate::shader::main_fs;
pub use crate::shader::main_vs;
pub use crate::shader::FRAG_LIM;
pub use crate::surface::clamp_surface_size;
pub use crate::vec::vec2;
pub use crate::vec::vec3;
pub use crate::vec::vec4;
pub use crate::vec::Vec2;
pub use crate::vec::Vec3;
pub use crate::vec::Vec4;
