use vstd::prelude::*;

use crate::vec3::{Color, Point3, Vec3, UNIT};

verus! {

/// `r` is the integer square root of `n`: `r * r <= n < (r + 1) * (r + 1)`.
pub open spec fn is_isqrt(n: int, r: int) -> bool {
    0 <= r && r * r <= n < (r + 1) * (r + 1)
}

/// Height in pixels of an image `width` pixels wide with aspect ratio
/// `aspect_width : aspect_height`: the quotient rounded down, at least one
/// and at most `i32::MAX`.
pub open spec fn image_height_spec(width: int, aspect_width: int, aspect_height: int) -> int {
    let h = (width * aspect_height) / aspect_width;
    if h < 1 {
        1
    } else if h > i32::MAX {
        i32::MAX as int
    } else {
        h
    }
}

/// Largest `r` with `r * r <= n`; zero for `n < 1`.
pub fn isqrt(n: i32) -> (r: i32)
    ensures
        n >= 0 ==> is_isqrt(n as int, r as int),
        n < 0 ==> r == 0,
{
    if n < 0 {
        return 0;
    }
    let mut r: i64 = 0;
    let mut done = false;
    while !done
        invariant
            0 <= r <= 46340,
            r * r <= n,
            n >= 0,
            done ==> n < (r + 1) * (r + 1),
        decreases 2 * (46341 - r) + (if done {
            0int
        } else {
            1int
        }),
    {
        let next = r + 1;
        proof {
            assert(next * next <= 46341 * 46341) by (nonlinear_arith)
                requires
                    0 < next <= 46341,
            ;
        }
        if next * next <= n as i64 {
            proof {
                assert(next <= 46340) by (nonlinear_arith)
                    requires
                        next * next <= n,
                        n <= 0x7fff_ffff,
                        next > 0,
                ;
            }
            r = next;
        } else {
            done = true;
        }
    }
    r as i32
}

/// The integer square root is unique.
pub proof fn lemma_isqrt_unique(n: int, a: int, b: int)
    requires
        is_isqrt(n, a),
        is_isqrt(n, b),
    ensures
        a == b,
{
    if a < b {
        assert((a + 1) * (a + 1) <= b * b) by (nonlinear_arith)
            requires
                0 <= a < b,
        ;
    } else if b < a {
        assert((b + 1) * (b + 1) <= a * a) by (nonlinear_arith)
            requires
                0 <= b < a,
        ;
    }
}

/// The largest perfect square not above `i` (zero for `i < 1`): samples are
/// taken on a square grid of jittered sub-cells.
pub fn nearest_square(i: i32) -> (r: i32)
    ensures
        i >= 0 ==> exists|s: int| is_isqrt(i as int, s) && r == s * s,
        i < 0 ==> r == 0,
{
    let s = isqrt(i);
    proof {
        if i >= 0 {
            assert(s * s <= i);
            assert(0 <= s * s) by (nonlinear_arith)
                requires
                    s >= 0,
            ;
        }
    }
    s * s
}

/// Fixed configuration of the camera and the integer layout of the image it
/// takes. Scalars are fixed point: angles in degrees, distances in units.
#[derive(Clone, Debug)]
pub struct Camera {
    /// Width of the image over its height, as the ratio
    /// `aspect_width : aspect_height`.
    pub aspect_width: i64,
    pub aspect_height: i64,
    pub image_width: i32,
    /// Samples per pixel, a perfect square.
    pub samples_per_pixel: i32,
    pub max_depth: i32,
    /// Vertical field of view in degrees.
    pub vfov: i64,
    pub lookfrom: Point3,
    pub lookat: Point3,
    pub vup: Vec3,
    /// Aperture angle in degrees; zero disables depth of field.
    pub defocus_angle: i64,
    /// Distance to the plane in focus, always positive.
    pub focus_dist: i64,
    /// Colour of rays that hit nothing.
    pub background: Color,
    /// Whether the image is tone mapped with an exposure derived from its
    /// own luminance.
    pub auto_exposure: bool,
    pub image_height: i32,
    /// Side of the grid of sub-pixel cells: `sqrt_spp * sqrt_spp` is
    /// `samples_per_pixel`.
    pub sqrt_spp: i32,
}

impl Camera {
    /// Derived fields agree with the configuration.
    pub open spec fn wf(&self) -> bool {
        &&& self.aspect_width > 0
        &&& self.aspect_height > 0
        &&& self.image_height == image_height_spec(
            self.image_width as int,
            self.aspect_width as int,
            self.aspect_height as int,
        )
        &&& self.sqrt_spp >= 0
        &&& self.samples_per_pixel == self.sqrt_spp * self.sqrt_spp
        &&& self.focus_dist > 0
    }

    /// A camera for the given configuration. The image height follows from the
    /// width and the aspect ratio; the sample count is lowered to the nearest
    /// perfect square; a focus distance that is not positive becomes one unit.
    pub fn new(
        aspect_width: i64,
        aspect_height: i64,
        image_width: i32,
        samples_per_pixel: i32,
        max_depth: i32,
        vfov: i64,
        lookfrom: Point3,
        lookat: Point3,
        vup: Vec3,
        defocus_angle: i64,
        focus_dist: i64,
        background: Color,
    ) -> (r: Camera)
        requires
            0 < aspect_width <= i32::MAX,
            0 < aspect_height <= i32::MAX,
        ensures
            r.wf(),
            r.aspect_width == aspect_width,
            r.aspect_height == aspect_height,
            r.image_width == image_width,
            r.image_height == image_height_spec(
                image_width as int,
                aspect_width as int,
                aspect_height as int,
            ),
            samples_per_pixel >= 0 ==> is_isqrt(samples_per_pixel as int, r.sqrt_spp as int),
            samples_per_pixel < 0 ==> r.sqrt_spp == 0,
            r.max_depth == max_depth,
            r.vfov == vfov,
            r.lookfrom == lookfrom,
            r.lookat == lookat,
            r.vup == vup,
            r.defocus_angle == defocus_angle,
            r.focus_dist == (if focus_dist <= 0 {
                UNIT
            } else {
                focus_dist
            }),
            r.background == background,
            !r.auto_exposure,
    {
        let width: i64 = if image_width < 0 { 0 } else { image_width as i64 };
        proof {
            assert(0 <= width * aspect_height <= 0x7fff_ffff * 0x7fff_ffff) by (nonlinear_arith)
                requires
                    0 <= width <= 0x7fff_ffff,
                    0 < aspect_height <= 0x7fff_ffff,
            ;
        }
        let product: i64 = width * aspect_height;
        let quotient: i64 = product / aspect_width;
        proof {
            if image_width < 0 {
                assert(image_width as int * aspect_height <= 0) by (nonlinear_arith)
                    requires
                        image_width < 0,
                        aspect_height > 0,
                ;
                assert((image_width as int * aspect_height) / (aspect_width as int) <= 0)
                    by (nonlinear_arith)
                    requires
                        image_width as int * aspect_height <= 0,
                        aspect_width > 0,
                ;
            }
        }
        let image_height: i32 = if quotient < 1 {
            1
        } else if quotient > i32::MAX as i64 {
            i32::MAX
        } else {
            quotient as i32
        };
        let sqrt_spp = isqrt(samples_per_pixel);
        let samples = nearest_square(samples_per_pixel);
        proof {
            if samples_per_pixel >= 0 {
                let s = choose|s: int| is_isqrt(samples_per_pixel as int, s) && samples == s * s;
                lemma_isqrt_unique(samples_per_pixel as int, s, sqrt_spp as int);
            }
        }
        let focus_dist = if focus_dist <= 0 { UNIT } else { focus_dist };
        assert(samples == sqrt_spp * sqrt_spp);
        assert(sqrt_spp >= 0);
        Camera {
            aspect_width,
            aspect_height,
            image_width,
            samples_per_pixel: samples,
            max_depth,
            vfov,
            lookfrom,
            lookat,
            vup,
            defocus_angle,
            focus_dist,
            background,
            auto_exposure: false,
            image_height,
            sqrt_spp,
        }
    }

    /// Number of pixels of the image.
    pub fn pixel_count(&self) -> (r: usize)
        requires
            self.wf(),
            self.image_width > 0,
            self.image_width * self.image_height <= usize::MAX,
        ensures
            r == self.image_width * self.image_height,
    {
        self.image_width as usize * self.image_height as usize
    }

    /// Pixels handled together by one render task: three rows.
    pub fn chunk_size(&self) -> (r: usize)
        requires
            self.image_width > 0,
            3 * self.image_width <= usize::MAX,
        ensures
            r == 3 * self.image_width,
    {
        3 * self.image_width as usize
    }

    /// Column and row of the pixel at row-major position `idx`.
    pub fn pixel_coords(&self, idx: usize) -> (r: (i32, i32))
        requires
            self.wf(),
            self.image_width > 0,
            idx < self.image_width * self.image_height,
        ensures
            r.0 == (idx as int) % (self.image_width as int),
            r.1 == (idx as int) / (self.image_width as int),
            0 <= r.0 < self.image_width,
            0 <= r.1 < self.image_height,
    {
        let w = self.image_width as usize;
        let x = idx % w;
        let y = idx / w;
        proof {
            assert(y < self.image_height) by (nonlinear_arith)
                requires
                    y == (idx as int) / (w as int),
                    idx < w * self.image_height,
                    w > 0,
            ;
        }
        (x as i32, y as i32)
    }
}

impl Default for Camera {
    /// A small 16:9 test camera at `(0, 0, -1)` looking at the origin.
    fn default() -> (r: Camera)
        ensures
            r.wf(),
            r.image_width == 100,
            r.image_height == 56,
            r.samples_per_pixel == 9,
            r.max_depth == 10,
    {
        let r = Camera::new(
            16,
            9,
            100,
            10,
            10,
            90 * UNIT,
            Point3::new(0, 0, -UNIT),
            Point3::new_zero(),
            Vec3::new(0, UNIT, 0),
            0,
            10 * UNIT,
            Color::new(700_000, 800_000, UNIT),
        );
        proof {
            lemma_isqrt_unique(10, r.sqrt_spp as int, 3);
        }
        r
    }
}

} // verus!
