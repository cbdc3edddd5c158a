use vstd::prelude::*;

use std::sync::Arc;

use crate::texture::{SolidColor, Texture};
use crate::vec3::{Color, UNIT};

verus! {

/// How light interacts with a surface or a medium.
#[derive(Clone, Debug)]
pub enum Material {
    Lambertian(Lambertian),
    Metal(Metal),
    Dielectric(Dielectric),
    DiffuseLight(DiffuseLight),
    Isotropic(Isotropic),
}

/// Ideal diffuse reflector, tinted by a texture.
#[derive(Clone, Debug)]
pub struct Lambertian {
    pub texture: Arc<Texture>,
}

/// Mirror with an albedo and a fuzz radius of at most one unit.
#[derive(Clone, Debug)]
pub struct Metal {
    pub albedo: Color,
    pub fuzz: i64,
}

/// Clear or tinted glass with index of refraction `ir`.
#[derive(Clone, Debug)]
pub struct Dielectric {
    pub tint: Color,
    pub ir: i64,
}

/// One-sided emitter.
#[derive(Clone, Debug)]
pub struct DiffuseLight {
    pub emit: Arc<Texture>,
}

/// Phase function of a constant-density medium: scatters uniformly.
#[derive(Clone, Debug)]
pub struct Isotropic {
    pub albedo: Arc<Texture>,
}

impl Lambertian {
    pub fn new(albedo: Color) -> (r: Material)
        ensures
            r matches Material::Lambertian(l) && *l.texture == Texture::Solid(SolidColor { color_value: albedo }),
    {
        Material::Lambertian(Lambertian { texture: Arc::new(SolidColor::new(albedo)) })
    }

    pub fn from_texture(texture: Arc<Texture>) -> (r: Material)
        ensures
            r matches Material::Lambertian(l) && l.texture == texture,
    {
        Material::Lambertian(Lambertian { texture })
    }
}

impl Metal {
    /// A metal of albedo `albedo`; the fuzz is `f` capped at one unit.
    pub fn new(albedo: Color, f: i64) -> (r: Material)
        ensures
            r matches Material::Metal(m) && m.albedo == albedo && m.fuzz == (if f < UNIT {
                f
            } else {
                UNIT
            }),
    {
        let fuzz = if f < UNIT { f } else { UNIT };
        Material::Metal(Metal { albedo, fuzz })
    }
}

impl Dielectric {
    pub fn new(ir: i64, tint: Color) -> (r: Material)
        ensures
            r matches Material::Dielectric(d) && d.ir == ir && d.tint == tint,
    {
        Material::Dielectric(Dielectric { tint, ir })
    }

    /// Untinted glass: the tint is white.
    pub fn new_clear(ir: i64) -> (r: Material)
        ensures
            r matches Material::Dielectric(d) && d.ir == ir && d.tint == (Color {
                x: UNIT,
                y: UNIT,
                z: UNIT,
            }),
    {
        Self::new(ir, Color { x: UNIT, y: UNIT, z: UNIT })
    }
}

impl DiffuseLight {
    pub fn new(c: Color) -> (r: Material)
        ensures
            r matches Material::DiffuseLight(d) && *d.emit == Texture::Solid(SolidColor { color_value: c }),
    {
        Material::DiffuseLight(DiffuseLight { emit: Arc::new(SolidColor::new(c)) })
    }

    pub fn from_texture(emit: Arc<Texture>) -> (r: Material)
        ensures
            r matches Material::DiffuseLight(d) && d.emit == emit,
    {
        Material::DiffuseLight(DiffuseLight { emit })
    }

    /// The texture that a hit shows as emitted light: the light's own on
    /// its front face, none on its back face.
    pub fn emitted(&self, front_face: bool) -> (r: Option<&Texture>)
        ensures
            front_face ==> r == Some(&*self.emit),
            !front_face ==> r.is_none(),
    {
        if front_face {
            Some(&*self.emit)
        } else {
            None
        }
    }
}

impl Isotropic {
    pub fn new(c: Color) -> (r: Material)
        ensures
            r matches Material::Isotropic(i) && *i.albedo == Texture::Solid(SolidColor { color_value: c }),
    {
        Material::Isotropic(Isotropic { albedo: Arc::new(SolidColor::new(c)) })
    }

    pub fn from_texture(albedo: Arc<Texture>) -> (r: Material)
        ensures
            r matches Material::Isotropic(i) && i.albedo == albedo,
    {
        Material::Isotropic(Isotropic { albedo })
    }
}

} // verus!
