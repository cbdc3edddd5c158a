use vstd::prelude::*;

use std::sync::Arc;

use crate::aabb::Aabb;
use crate::material::{Isotropic, Material};
use crate::object::Object;
use crate::texture::{SolidColor, Texture};
use crate::vec3::Color;

verus! {

/// Fog of constant `density` filling the inside of `boundary`; rays scatter
/// in it by `phase_function`.
#[derive(Clone, Debug)]
pub struct ConstantMedium {
    pub boundary: Arc<Object>,
    pub density: i64,
    pub phase_function: Material,
    pub bbox: Option<Aabb>,
}

impl ConstantMedium {
    /// A medium of colour `c`; its box is the boundary's.
    pub fn new(boundary: Arc<Object>, density: i64, c: Color) -> (r: Object)
        ensures
            r is Volume,
            r->Volume_0.boundary == boundary,
            r->Volume_0.density == density,
            r->Volume_0.bbox == boundary.bbox_spec(),
            r->Volume_0.phase_function is Isotropic,
            *r->Volume_0.phase_function->Isotropic_0.albedo == Texture::Solid(
                SolidColor { color_value: c },
            ),
    {
        let bbox = boundary.bounding_box();
        Object::Volume(
            ConstantMedium { boundary, density, phase_function: Isotropic::new(c), bbox },
        )
    }

    /// A medium whose colour is read from `albedo`.
    pub fn from_texture(boundary: Arc<Object>, density: i64, albedo: Arc<Texture>) -> (r: Object)
        ensures
            r is Volume,
            r->Volume_0.boundary == boundary,
            r->Volume_0.density == density,
            r->Volume_0.bbox == boundary.bbox_spec(),
            r->Volume_0.phase_function is Isotropic,
            r->Volume_0.phase_function->Isotropic_0.albedo == albedo,
    {
        let bbox = boundary.bounding_box();
        Object::Volume(
            ConstantMedium {
                boundary,
                density,
                phase_function: Isotropic::from_texture(albedo),
                bbox,
            },
        )
    }
}

} // verus!
