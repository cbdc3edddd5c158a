use vstd::prelude::*;

use std::sync::Arc;

use crate::perlin::Perlin;
use crate::vec3::{Color, UNIT};

verus! {

/// What a surface colour is looked up from.
#[derive(Clone, Debug)]
pub enum Texture {
    Solid(SolidColor),
    Checker(CheckerTexture),
    Image(ImageTexture),
    Noise(NoiseTexture),
}

/// One colour everywhere.
#[derive(Clone, Debug)]
pub struct SolidColor {
    pub color_value: Color,
}

/// A 3D checker pattern of cubes `scale` wide alternating two textures.
#[derive(Clone, Debug)]
pub struct CheckerTexture {
    pub scale: i64,
    pub even: Arc<Texture>,
    pub odd: Arc<Texture>,
}

/// Colours read from the image file `filename`, which is decoded when the
/// scene is prepared for rendering.
#[derive(Clone, Debug)]
pub struct ImageTexture {
    pub filename: String,
}

/// Marble-like turbulence of Perlin noise at frequency `scale`.
#[derive(Clone, Debug)]
pub struct NoiseTexture {
    pub noise: Perlin,
    pub scale: i64,
}

impl SolidColor {
    pub fn new(color_value: Color) -> (r: Texture)
        ensures
            r == Texture::Solid(SolidColor { color_value }),
    {
        Texture::Solid(SolidColor { color_value })
    }

    pub fn from_rgb(red: i64, green: i64, blue: i64) -> (r: Texture)
        ensures
            r == Texture::Solid(SolidColor { color_value: Color { x: red, y: green, z: blue } }),
    {
        Texture::Solid(SolidColor { color_value: Color { x: red, y: green, z: blue } })
    }

    pub fn value(&self) -> (r: Color)
        ensures
            r == self.color_value,
    {
        self.color_value
    }
}

impl CheckerTexture {
    /// Checker of two textures.
    pub fn new(scale: i64, even: Texture, odd: Texture) -> (r: Texture)
        ensures
            r == Texture::Checker(
                CheckerTexture { scale, even: Arc::new(even), odd: Arc::new(odd) },
            ),
    {
        Texture::Checker(CheckerTexture { scale, even: Arc::new(even), odd: Arc::new(odd) })
    }

    /// Checker of two solid colours.
    pub fn from_color(scale: i64, c1: Color, c2: Color) -> (r: Texture)
        ensures
            r == Texture::Checker(
                CheckerTexture {
                    scale,
                    even: Arc::new(Texture::Solid(SolidColor { color_value: c1 })),
                    odd: Arc::new(Texture::Solid(SolidColor { color_value: c2 })),
                },
            ),
    {
        Texture::Checker(
            CheckerTexture {
                scale,
                even: Arc::new(SolidColor::new(c1)),
                odd: Arc::new(SolidColor::new(c2)),
            },
        )
    }

    /// Whether the cell with integer coordinates `(x, y, z)` (each the floor
    /// of a point coordinate divided by `scale`) shows the even texture:
    /// exactly when the sum of the coordinates is even.
    pub fn picks_even(x: i32, y: i32, z: i32) -> (r: bool)
        ensures
            r == ((x + y + z) % 2 == 0),
    {
        let s: i64 = x as i64 + y as i64 + z as i64;
        s % 2 == 0
    }
}

impl ImageTexture {
    /// A texture read from the image file `filename`.
    pub fn new(filename: &str) -> (r: Texture)
        ensures
            r matches Texture::Image(t) && t.filename@ == filename@,
    {
        Texture::Image(ImageTexture { filename: filename.to_owned() })
    }

    /// Colour shown where the image holds no pixel: cyan.
    pub fn missing_color() -> (r: Color)
        ensures
            r == (Color { x: 0, y: UNIT, z: UNIT }),
    {
        Color { x: 0, y: UNIT, z: UNIT }
    }
}

impl NoiseTexture {
    /// Noise of frequency `scale` over a fresh random lattice.
    pub fn new(scale: i64) -> (r: Texture)
        ensures
            r matches Texture::Noise(t) && t.scale == scale && t.noise.wf(),
    {
        Texture::Noise(NoiseTexture { noise: Perlin::new(), scale })
    }

    /// Noise of unit frequency.
    pub fn default() -> (r: Texture)
        ensures
            r matches Texture::Noise(t) && t.scale == UNIT && t.noise.wf(),
    {
        Self::new(UNIT)
    }
}

} // verus!
