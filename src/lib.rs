//! Scene model and construction-time geometry of a Monte Carlo path tracer.
//!
//! Every scalar of a scene (coordinates, radii, colour channels, angles,
//! densities) is held as an exact fixed-point integer: a multiple of one
//! millionth of a unit (see [`vec3::UNIT`]). Bounding boxes, the bounding
//! volume hierarchy, the camera's integer layout and the noise tables are
//! computed and proved on that exact model; light transport runs on top of it.

pub mod vec3;
pub mod interval;
pub mod aabb;
pub mod utils;
pub mod perlin;
pub mod rt_image;
pub mod texture;
pub mod material;
pub mod object;
pub mod transform;
pub mod constant_medium;
pub mod hittable;
pub mod render;
pub mod pdf;
pub mod scenes;
