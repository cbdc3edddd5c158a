use vstd::prelude::*;

use std::sync::Arc;

use crate::constant_medium::ConstantMedium;
use crate::aabb::Aabb;
use crate::hittable::{all_bounded, lemma_bvh_box_inside, HittableList};
use crate::interval::Interval;
use crate::material::{Dielectric, DiffuseLight, Lambertian, Metal};
use crate::object::{make_box, Object, Quad, Sphere, Sun};
use crate::texture::{CheckerTexture, ImageTexture, NoiseTexture};
use crate::transform::{RotateY, Translate};
use crate::utils::random_int;
use crate::render::{is_isqrt, lemma_isqrt_unique, Camera};
use crate::vec3::{Color, Point3, Vec3, UNIT};

verus! {

/// Sine of 15 degrees, to six decimals.
pub const SIN_15_DEGREES: i64 = 258_819;

/// Cosine of 15 degrees, to six decimals.
pub const COS_15_DEGREES: i64 = 965_926;

/// Sine of 18 degrees, to six decimals.
pub const SIN_18_DEGREES: i64 = 309_017;

/// Cosine of 18 degrees, to six decimals.
pub const COS_18_DEGREES: i64 = 951_057;

/// A world to render, the camera that looks at it, and any distant suns.
#[derive(Clone, Debug)]
pub struct Scene {
    pub world: HittableList,
    pub camera: Camera,
    pub suns: Vec<Sun>,
}

impl Scene {
    /// The world's box is up to date and the camera's layout agrees with its
    /// configuration.
    pub open spec fn wf(&self) -> bool {
        self.world.wf() && self.camera.wf()
    }
}

/// Ground, a diffuse sphere, a hollow glass sphere and a metal sphere, lit
/// by a bright sun and exposed automatically.
pub fn scene_sun_spheres() -> (r: Scene)
    ensures
        r.wf(),
        r.world.objects@.len() == 5,
        r.suns@.len() == 1,
        r.camera.image_width == 640,
        r.camera.image_height == 360,
        r.camera.samples_per_pixel == 961,
        r.camera.auto_exposure,
{
    let mut world = HittableList::new();
    let ground = Lambertian::new(Color::new(800_000, 800_000, 0));
    let center = Lambertian::new(Color::new(100_000, 200_000, 500_000));
    let left = Dielectric::new(1_500_000, Color::new(UNIT, UNIT, UNIT));
    let right = Metal::new(Color::new(800_000, 600_000, 200_000), 0);
    world.add(Sphere::new(Point3::new(0, 0, -UNIT), 500_000, center));
    world.add(Sphere::new(Point3::new(-UNIT, 0, -1_250_000), 500_000, left.clone()));
    world.add(Sphere::new(Point3::new(-UNIT, 0, -1_250_000), -400_000, left));
    world.add(Sphere::new(Point3::new(0, -100_500_000, -UNIT), 100 * UNIT, ground));
    world.add(Sphere::new(Point3::new(UNIT, 0, -750_000), 500_000, right));
    let mut camera = Camera::new(
        16,
        9,
        640,
        1000,
        50,
        90 * UNIT,
        Point3::new(0, 0, 0),
        Point3::new(0, 0, -UNIT),
        Vec3::new(0, UNIT, 0),
        0,
        UNIT,
        Color::new(20_000, 50_000, 100_000),
    );
    camera.auto_exposure = true;
    proof {
        assert(is_isqrt(1000, 31));
        lemma_isqrt_unique(1000, camera.sqrt_spp as int, 31);
    }
    let mut suns: Vec<Sun> = Vec::new();
    suns.push(Sun::new(Vec3::new(-UNIT, UNIT, UNIT), Color::new(10 * UNIT, 10 * UNIT, 10 * UNIT), 2 * UNIT));
    Scene { world, camera, suns }
}

/// The same spheres under a sky, with depth of field, in a hierarchy.
pub fn scene_three_spheres() -> (r: Scene)
    ensures
        r.wf(),
        r.world.objects@.len() == 1,
        r.world.objects@[0] is Node,
        r.suns@.len() == 0,
        r.camera.image_width == 800,
        r.camera.image_height == 450,
        r.camera.samples_per_pixel == 961,
        r.camera.defocus_angle == 2 * UNIT,
{
    let mut world = HittableList::new();
    let ground = Lambertian::new(Color::new(800_000, 800_000, 0));
    let center = Lambertian::new(Color::new(100_000, 200_000, 500_000));
    let left = Dielectric::new(1_500_000, Color::new(UNIT, 900_000, 800_000));
    let right = Metal::new(Color::new(800_000, 600_000, 200_000), 0);
    world.add(Sphere::new(Point3::new(0, 0, -UNIT), 500_000, center));
    world.add(Sphere::new(Point3::new(-UNIT, 0, -UNIT), 500_000, left.clone()));
    world.add(Sphere::new(Point3::new(-UNIT, 0, -UNIT), -400_000, left));
    world.add(Sphere::new(Point3::new(0, -100_500_000, -UNIT), 100 * UNIT, ground));
    world.add(Sphere::new(Point3::new(UNIT, 0, -UNIT), 500_000, right));
    let camera = Camera::new(
        16,
        9,
        800,
        1000,
        50,
        90 * UNIT,
        Point3::new(0, 0, 0),
        Point3::new(0, 0, -UNIT),
        Vec3::new(0, UNIT, 0),
        2 * UNIT,
        UNIT,
        Color::new(700_000, 800_000, UNIT),
    );
    proof {
        assert(is_isqrt(1000, 31));
        lemma_isqrt_unique(1000, camera.sqrt_spp as int, 31);
    }
    let world = world.create_bvh();
    Scene { world, camera, suns: Vec::new() }
}

/// Two large checkered spheres touching at the origin.
pub fn two_spheres() -> (r: Scene)
    ensures
        r.wf(),
        r.world.objects@.len() == 2,
        r.suns@.len() == 0,
        r.camera.image_width == 400,
        r.camera.image_height == 225,
        r.camera.samples_per_pixel == 100,
{
    let mut world = HittableList::new();
    let checker = Arc::new(
        CheckerTexture::from_color(
            300_000,
            Color::new(200_000, 300_000, 100_000),
            Color::new(900_000, 900_000, 900_000),
        ),
    );
    world.add(
        Sphere::new(Point3::new(0, -10 * UNIT, 0), 10 * UNIT, Lambertian::from_texture(checker.clone())),
    );
    world.add(Sphere::new(Point3::new(0, 10 * UNIT, 0), 10 * UNIT, Lambertian::from_texture(checker)));
    let camera = Camera::new(
        16,
        9,
        400,
        100,
        50,
        20 * UNIT,
        Point3::new(13 * UNIT, 2 * UNIT, 3 * UNIT),
        Point3::new(0, 0, 0),
        Vec3::new(0, UNIT, 0),
        0,
        0,
        Color::new(700_000, 800_000, UNIT),
    );
    proof {
        lemma_isqrt_unique(100, camera.sqrt_spp as int, 10);
    }
    Scene { world, camera, suns: Vec::new() }
}

/// A globe wrapped in the image `earthmap.jpg`.
pub fn earth() -> (r: Scene)
    ensures
        r.wf(),
        r.world.objects@.len() == 1,
        r.suns@.len() == 0,
        r.camera.image_width == 1000,
        r.camera.image_height == 562,
        r.camera.samples_per_pixel == 961,
{
    let earth_texture = Arc::new(ImageTexture::new("earthmap.jpg"));
    let earth_surface = Lambertian::from_texture(earth_texture);
    let globe = Sphere::new(Point3::new_zero(), 2 * UNIT, earth_surface);
    let camera = Camera::new(
        16,
        9,
        1000,
        1000,
        50,
        20 * UNIT,
        Point3::new(13 * UNIT, 3 * UNIT, 2 * UNIT),
        Point3::new(0, 0, 0),
        Vec3::new(0, UNIT, 0),
        0,
        0,
        Color::new(700_000, 800_000, UNIT),
    );
    proof {
        assert(is_isqrt(1000, 31));
        lemma_isqrt_unique(1000, camera.sqrt_spp as int, 31);
    }
    let world = HittableList::from_object(globe);
    Scene { world, camera, suns: Vec::new() }
}

/// Ground and a sphere of marble-like Perlin noise.
pub fn two_perlin_spheres() -> (r: Scene)
    ensures
        r.wf(),
        r.world.objects@.len() == 2,
        r.suns@.len() == 0,
        r.camera.image_width == 400,
        r.camera.samples_per_pixel == 100,
{
    let mut world = HittableList::new();
    let pertext = Arc::new(NoiseTexture::new(4 * UNIT));
    world.add(
        Sphere::new(
            Point3::new(0, -1000 * UNIT, 0),
            1000 * UNIT,
            Lambertian::from_texture(pertext.clone()),
        ),
    );
    world.add(Sphere::new(Point3::new(0, 2 * UNIT, 0), 2 * UNIT, Lambertian::from_texture(pertext)));
    let camera = Camera::new(
        16,
        9,
        400,
        100,
        50,
        20 * UNIT,
        Point3::new(13 * UNIT, 2 * UNIT, 3 * UNIT),
        Point3::new(0, 0, 0),
        Vec3::new(0, UNIT, 0),
        0,
        0,
        Color::new(600_000, 700_000, UNIT),
    );
    proof {
        lemma_isqrt_unique(100, camera.sqrt_spp as int, 10);
    }
    Scene { world, camera, suns: Vec::new() }
}

/// Five coloured parallelograms around the view.
pub fn quads() -> (r: Scene)
    ensures
        r.wf(),
        r.world.objects@.len() == 5,
        r.suns@.len() == 0,
        r.camera.image_width == 400,
        r.camera.image_height == 400,
        r.camera.samples_per_pixel == 100,
{
    let mut world = HittableList::new();
    let left_red = Lambertian::new(Color::new(UNIT, 200_000, 200_000));
    let back_green = Lambertian::new(Color::new(200_000, UNIT, 200_000));
    let right_blue = Lambertian::new(Color::new(200_000, 200_000, UNIT));
    let upper_orange = Lambertian::new(Color::new(UNIT, 500_000, 0));
    let lower_teal = Lambertian::new(Color::new(200_000, 800_000, 800_000));
    world.add(
        Quad::new(
            Point3::new(-3 * UNIT, -2 * UNIT, 5 * UNIT),
            Vec3::new(0, 0, -4 * UNIT),
            Vec3::new(0, 4 * UNIT, 0),
            left_red,
        ),
    );
    world.add(
        Quad::new(
            Point3::new(-2 * UNIT, -2 * UNIT, 0),
            Vec3::new(4 * UNIT, 0, 0),
            Vec3::new(0, 4 * UNIT, 0),
            back_green,
        ),
    );
    world.add(
        Quad::new(
            Point3::new(3 * UNIT, -2 * UNIT, UNIT),
            Vec3::new(0, 0, 4 * UNIT),
            Vec3::new(0, 4 * UNIT, 0),
            right_blue,
        ),
    );
    world.add(
        Quad::new(
            Point3::new(-2 * UNIT, 3 * UNIT, UNIT),
            Vec3::new(4 * UNIT, 0, 0),
            Vec3::new(0, 0, 4 * UNIT),
            upper_orange,
        ),
    );
    world.add(
        Quad::new(
            Point3::new(-2 * UNIT, -3 * UNIT, 5 * UNIT),
            Vec3::new(4 * UNIT, 0, 0),
            Vec3::new(0, 0, -4 * UNIT),
            lower_teal,
        ),
    );
    let camera = Camera::new(
        1,
        1,
        400,
        100,
        50,
        80 * UNIT,
        Point3::new(0, 0, 9 * UNIT),
        Point3::new(0, 0, 0),
        Vec3::new(0, UNIT, 0),
        0,
        0,
        Color::new(600_000, 700_000, UNIT),
    );
    proof {
        lemma_isqrt_unique(100, camera.sqrt_spp as int, 10);
    }
    Scene { world, camera, suns: Vec::new() }
}

/// Noise-textured spheres lit by a square and a spherical light, on black.
pub fn simple_light() -> (r: Scene)
    ensures
        r.wf(),
        r.world.objects@.len() == 4,
        r.suns@.len() == 0,
        r.camera.image_width == 400,
        r.camera.samples_per_pixel == 400,
        r.camera.background == Color::new_zero_spec(),
{
    let mut world = HittableList::new();
    let pertex = Arc::new(NoiseTexture::new(4 * UNIT));
    world.add(
        Sphere::new(
            Point3::new(0, -1000 * UNIT, 0),
            1000 * UNIT,
            Lambertian::from_texture(pertex.clone()),
        ),
    );
    world.add(Sphere::new(Point3::new(0, 2 * UNIT, 0), 2 * UNIT, Lambertian::from_texture(pertex)));
    let difflight = DiffuseLight::new(Color::new(4 * UNIT, 4 * UNIT, 4 * UNIT));
    world.add(
        Quad::new(
            Point3::new(3 * UNIT, UNIT, -2 * UNIT),
            Vec3::new(2 * UNIT, 0, 0),
            Vec3::new(0, 2 * UNIT, 0),
            difflight.clone(),
        ),
    );
    world.add(Sphere::new(Point3::new(0, 7 * UNIT, 0), 2 * UNIT, difflight));
    let camera = Camera::new(
        16,
        9,
        400,
        400,
        50,
        20 * UNIT,
        Point3::new(26 * UNIT, 3 * UNIT, 6 * UNIT),
        Point3::new(0, 2 * UNIT, 0),
        Vec3::new(0, UNIT, 0),
        0,
        0,
        Color::new_zero(),
    );
    proof {
        lemma_isqrt_unique(400, camera.sqrt_spp as int, 20);
    }
    Scene { world, camera, suns: Vec::new() }
}

/// The Cornell box: red, green and white walls, a square ceiling light and
/// two turned white blocks.
pub fn cornell_box() -> (r: Scene)
    ensures
        r.wf(),
        r.world.objects@.len() == 8,
        r.suns@.len() == 0,
        r.camera.image_width == 600,
        r.camera.image_height == 600,
        r.camera.samples_per_pixel == 100,
{
    let mut world = HittableList::new();
    let red = Lambertian::new(Color::new(650_000, 50_000, 50_000));
    let white = Lambertian::new(Color::new(730_000, 730_000, 730_000));
    let green = Lambertian::new(Color::new(120_000, 450_000, 150_000));
    let light = DiffuseLight::new(Color::new(15 * UNIT, 15 * UNIT, 15 * UNIT));
    world.add(
        Quad::new(
            Point3::new(555 * UNIT, 0, 0),
            Vec3::new(0, 555 * UNIT, 0),
            Vec3::new(0, 0, 555 * UNIT),
            green,
        ),
    );
    world.add(
        Quad::new(
            Point3::new(0, 0, 0),
            Vec3::new(0, 555 * UNIT, 0),
            Vec3::new(0, 0, 555 * UNIT),
            red,
        ),
    );
    world.add(Quad::new(
            Point3::new(343 * UNIT, 554 * UNIT, 332 * UNIT),
            Vec3::new(-130 * UNIT, 0, 0),
            Vec3::new(0, 0, -105 * UNIT),
            light,
        ));
    world.add(
        Quad::new(
            Point3::new(0, 0, 0),
            Vec3::new(555 * UNIT, 0, 0),
            Vec3::new(0, 0, 555 * UNIT),
            white.clone(),
        ),
    );
    world.add(
        Quad::new(
            Point3::new(555 * UNIT, 555 * UNIT, 555 * UNIT),
            Vec3::new(-555 * UNIT, 0, 0),
            Vec3::new(0, 0, -555 * UNIT),
            white.clone(),
        ),
    );
    world.add(
        Quad::new(
            Point3::new(0, 0, 555 * UNIT),
            Vec3::new(555 * UNIT, 0, 0),
            Vec3::new(0, 555 * UNIT, 0),
            white.clone(),
        ),
    );
    let box1 = make_box(&Point3::new_zero(), &Point3::new(165 * UNIT, 330 * UNIT, 165 * UNIT), &white);
    let box1 = RotateY::new(Arc::new(box1), SIN_15_DEGREES, COS_15_DEGREES);
    let box1 = Translate::new(Arc::new(box1), Vec3::new(265 * UNIT, 0, 295 * UNIT));
    let box2 = make_box(&Point3::new_zero(), &Point3::new(165 * UNIT, 165 * UNIT, 165 * UNIT), &white);
    let box2 = RotateY::new(Arc::new(box2), -SIN_18_DEGREES, COS_18_DEGREES);
    let box2 = Translate::new(Arc::new(box2), Vec3::new(130 * UNIT, 0, 65 * UNIT));
    world.add(box1);
    world.add(box2);
    let camera = Camera::new(
        1,
        1,
        600,
        100,
        50,
        40 * UNIT,
        Point3::new(278 * UNIT, 278 * UNIT, -800 * UNIT),
        Point3::new(278 * UNIT, 278 * UNIT, 0),
        Vec3::new(0, UNIT, 0),
        0,
        0,
        Color::new_zero(),
    );
    proof {
        lemma_isqrt_unique(100, camera.sqrt_spp as int, 10);
    }
    Scene { world, camera, suns: Vec::new() }
}

/// The Cornell box with the two blocks turned into white and black smoke and a
/// larger, dimmer light.
pub fn cornell_smoke() -> (r: Scene)
    ensures
        r.wf(),
        r.world.objects@.len() == 8,
        r.world.objects@[6] is Volume,
        r.world.objects@[7] is Volume,
        r.suns@.len() == 0,
        r.camera.image_width == 600,
        r.camera.samples_per_pixel == 196,
        r.camera.max_depth == 10,
{
    let mut world = HittableList::new();
    let red = Lambertian::new(Color::new(650_000, 50_000, 50_000));
    let white = Lambertian::new(Color::new(730_000, 730_000, 730_000));
    let green = Lambertian::new(Color::new(120_000, 450_000, 150_000));
    let light = DiffuseLight::new(Color::new(7 * UNIT, 7 * UNIT, 7 * UNIT));
    world.add(
        Quad::new(
            Point3::new(555 * UNIT, 0, 0),
            Vec3::new(0, 555 * UNIT, 0),
            Vec3::new(0, 0, 555 * UNIT),
            green,
        ),
    );
    world.add(
        Quad::new(
            Point3::new(0, 0, 0),
            Vec3::new(0, 555 * UNIT, 0),
            Vec3::new(0, 0, 555 * UNIT),
            red,
        ),
    );
    world.add(Quad::new(
            Point3::new(113 * UNIT, 554 * UNIT, 127 * UNIT),
            Vec3::new(330 * UNIT, 0, 0),
            Vec3::new(0, 0, 305 * UNIT),
            light,
        ));
    world.add(
        Quad::new(
            Point3::new(0, 0, 0),
            Vec3::new(555 * UNIT, 0, 0),
            Vec3::new(0, 0, 555 * UNIT),
            white.clone(),
        ),
    );
    world.add(
        Quad::new(
            Point3::new(555 * UNIT, 555 * UNIT, 555 * UNIT),
            Vec3::new(-555 * UNIT, 0, 0),
            Vec3::new(0, 0, -555 * UNIT),
            white.clone(),
        ),
    );
    world.add(
        Quad::new(
            Point3::new(0, 0, 555 * UNIT),
            Vec3::new(555 * UNIT, 0, 0),
            Vec3::new(0, 555 * UNIT, 0),
            white.clone(),
        ),
    );
    let box1 = make_box(&Point3::new_zero(), &Point3::new(165 * UNIT, 330 * UNIT, 165 * UNIT), &white);
    let box1 = RotateY::new(Arc::new(box1), SIN_15_DEGREES, COS_15_DEGREES);
    let box1 = Translate::new(Arc::new(box1), Vec3::new(265 * UNIT, 0, 295 * UNIT));
    let box2 = make_box(&Point3::new_zero(), &Point3::new(165 * UNIT, 165 * UNIT, 165 * UNIT), &white);
    let box2 = RotateY::new(Arc::new(box2), -SIN_18_DEGREES, COS_18_DEGREES);
    let box2 = Translate::new(Arc::new(box2), Vec3::new(130 * UNIT, 0, 65 * UNIT));
    world.add(ConstantMedium::new(Arc::new(box1), 10_000, Color::new_zero()));
    world.add(ConstantMedium::new(Arc::new(box2), 10_000, Color::new(UNIT, UNIT, UNIT)));
    let camera = Camera::new(
        1,
        1,
        600,
        200,
        10,
        40 * UNIT,
        Point3::new(278 * UNIT, 278 * UNIT, -800 * UNIT),
        Point3::new(278 * UNIT, 278 * UNIT, 0),
        Vec3::new(0, UNIT, 0),
        0,
        0,
        Color::new_zero(),
    );
    proof {
        lemma_isqrt_unique(200, camera.sqrt_spp as int, 14);
    }
    Scene { world, camera, suns: Vec::new() }
}

/// A uniformly drawn scalar of `[0, UNIT)`: a fraction of one unit.
fn random_fraction() -> (r: i64)
    ensures
        0 <= r < UNIT,
{
    random_int(0, UNIT - 1)
}

/// The product of two uniformly drawn fractions of one unit, as a fraction of
/// one unit.
fn random_product() -> (r: i64)
    ensures
        0 <= r < UNIT,
{
    let p = random_fraction();
    let q = random_fraction();
    proof {
        assert(0 <= p * q < UNIT * UNIT) by (nonlinear_arith)
            requires
                0 <= p < UNIT,
                0 <= q < UNIT,
        ;
    }
    let pq = p * q;
    pq / UNIT
}

/// Squared distance between two points on the fixed-point grid, in squared
/// fixed-point steps.
fn distance_squared(a: &Point3, b: &Point3) -> (r: i64)
    requires
        a.within(100 * UNIT),
        b.within(100 * UNIT),
    ensures
        r == (a.x - b.x) * (a.x - b.x) + (a.y - b.y) * (a.y - b.y) + (a.z - b.z) * (a.z - b.z),
{
    let dx = a.x - b.x;
    let dy = a.y - b.y;
    let dz = a.z - b.z;
    assert(dx * dx <= 40_000_000_000_000_000) by (nonlinear_arith)
        requires
            -200_000_000 <= dx <= 200_000_000,
    ;
    assert(dy * dy <= 40_000_000_000_000_000) by (nonlinear_arith)
        requires
            -200_000_000 <= dy <= 200_000_000,
    ;
    assert(dz * dz <= 40_000_000_000_000_000) by (nonlinear_arith)
        requires
            -200_000_000 <= dz <= 200_000_000,
    ;
    assert(0 <= dx * dx && 0 <= dy * dy && 0 <= dz * dz) by (nonlinear_arith);
    let dx2 = dx * dx;
    let dy2 = dy * dy;
    let dz2 = dz * dz;
    dx2 + dy2 + dz2
}

/// A checkered ground covered with small random spheres (diffuse ones
/// moving, metal and glass ones still), three large spheres, in a hierarchy.
pub fn scene_random_balls() -> (r: Scene)
    ensures
        r.wf(),
        r.world.objects@.len() == 1,
        r.world.objects@[0] is Node,
        r.suns@.len() == 0,
        r.camera.image_width == 500,
        r.camera.image_height == 281,
        r.camera.samples_per_pixel == 400,
        r.camera.focus_dist == 10 * UNIT,
{
    let mut world = HittableList::new();
    let checker = Arc::new(
        CheckerTexture::from_color(
            320_000,
            Color::new(200_000, 300_000, 100_000),
            Color::new(900_000, 900_000, 900_000),
        ),
    );
    let ground_material = Lambertian::from_texture(checker);
    world.add(Sphere::new(Point3::new(0, -2000 * UNIT, 0), 2000 * UNIT, ground_material));
    let landmark = Point3::new(4 * UNIT, 200_000, 0);
    let mut a: i64 = -11;
    while a < 11
        invariant
            -11 <= a <= 11,
            landmark == Point3::new_spec(4_000_000, 200_000, 0),
            world.wf(),
            all_bounded(world.objects@),
        decreases 11 - a,
    {
        let mut b: i64 = -11;
        while b < 11
            invariant
                -11 <= a < 11,
                -11 <= b <= 11,
                landmark == Point3::new_spec(4_000_000, 200_000, 0),
                world.wf(),
                all_bounded(world.objects@),
            decreases 11 - b,
        {
            let choose_mat = random_fraction();
            let center = Point3::new(
                a * UNIT + random_int(0, 899_999),
                200_000,
                b * UNIT + random_int(0, 899_999),
            );
            let center2 = Point3::new(center.x, center.y + random_int(0, 499_999), center.z);
            if distance_squared(&center, &landmark) > 810_000_000_000 {
                if choose_mat < 800_000 {
                    let albedo = Color::new(
                        random_product(),
                        random_product(),
                        random_product(),
                    );
                    world.add(Sphere::new_moving(center, center2, 200_000, Lambertian::new(albedo)));
                } else if choose_mat < 950_000 {
                    let albedo = Color::new(
                        random_int(500_000, UNIT - 1),
                        random_int(500_000, UNIT - 1),
                        random_int(500_000, UNIT - 1),
                    );
                    let fuzz = random_int(0, 499_999);
                    world.add(Sphere::new(center, 200_000, Metal::new(albedo, fuzz)));
                } else {
                    let ir = random_int(1_200_000, 1_599_999);
                    world.add(
                        Sphere::new(center, 200_000, Dielectric::new(ir, Color::new(UNIT, UNIT, UNIT))),
                    );
                }
            }
            b = b + 1;
        }
        a = a + 1;
    }
    world.add(
        Sphere::new(
            Point3::new(0, UNIT, 0),
            UNIT,
            Dielectric::new(1_500_000, Color::new(UNIT, UNIT, UNIT)),
        ),
    );
    world.add(
        Sphere::new(
            Point3::new(-4 * UNIT, UNIT, 0),
            UNIT,
            Lambertian::new(Color::new(400_000, 200_000, 100_000)),
        ),
    );
    world.add(
        Sphere::new(
            Point3::new(4 * UNIT, UNIT, 0),
            UNIT,
            Metal::new(Color::new(700_000, 600_000, 500_000), 0),
        ),
    );
    let camera = Camera::new(
        16,
        9,
        500,
        400,
        50,
        20 * UNIT,
        Point3::new(13 * UNIT, 2 * UNIT, 3 * UNIT),
        Point3::new(0, 0, 0),
        Vec3::new(0, UNIT, 0),
        600_000,
        10 * UNIT,
        Color::new(700_000, 800_000, UNIT),
    );
    proof {
        lemma_isqrt_unique(400, camera.sqrt_spp as int, 20);
    }
    let world = world.create_bvh();
    Scene { world, camera, suns: Vec::new() }
}

/// Bounds that hold the boxes of the small spheres of the final scene's
/// cluster.
pub open spec fn cluster_bounds() -> Aabb {
    Aabb {
        x: Interval { min: -10_000_000i64, max: 175_000_000 },
        y: Interval { min: -10_000_000i64, max: 175_000_000 },
        z: Interval { min: -10_000_000i64, max: 175_000_000 },
    }
}

/// The closing scene: a field of boxes of random heights in a hierarchy, a
/// ceiling light, a moving sphere, glass, metal, a glass ball filled with blue
/// fog, thin mist over everything, a globe, a noise sphere and a turned cluster
/// of a thousand small spheres in a hierarchy.
pub fn final_scene(image_width: i32, samples_per_pixel: i32, max_depth: i32) -> (r: Scene)
    ensures
        r.wf(),
        r.world.objects@.len() == 11,
        r.world.objects@[0] is List,
        r.world.objects@[6] is Volume,
        r.world.objects@[7] is Volume,
        r.world.objects@[10] is Transform,
        r.suns@.len() == 0,
        r.camera.image_width == image_width,
        r.camera.max_depth == max_depth,
        samples_per_pixel >= 0 ==> is_isqrt(samples_per_pixel as int, r.camera.sqrt_spp as int),
{
    let mut boxes1 = HittableList::new();
    let ground = Lambertian::new(Color::new(480_000, 830_000, 530_000));
    let boxes_per_side: i64 = 20;
    let mut i: i64 = 0;
    while i < boxes_per_side
        invariant
            0 <= i <= boxes_per_side == 20,
            boxes1.wf(),
            all_bounded(boxes1.objects@),
        decreases boxes_per_side - i,
    {
        let mut j: i64 = 0;
        while j < boxes_per_side
            invariant
                0 <= i < boxes_per_side == 20,
                0 <= j <= boxes_per_side,
                boxes1.wf(),
                all_bounded(boxes1.objects@),
            decreases boxes_per_side - j,
        {
            let w: i64 = 100 * UNIT;
            let x0 = -1000 * UNIT + i * w;
            let z0 = -1000 * UNIT + j * w;
            let y0: i64 = 0;
            let x1 = x0 + w;
            let y1 = random_int(UNIT, 101 * UNIT - 1);
            let z1 = z0 + w;
            boxes1.add(make_box(&Point3::new(x0, y0, z0), &Point3::new(x1, y1, z1), &ground));
            j = j + 1;
        }
        i = i + 1;
    }
    let mut world = HittableList::new();
    world.add(Object::List(Arc::new(boxes1.create_bvh())));
    let light = DiffuseLight::new(Color::new(7 * UNIT, 7 * UNIT, 7 * UNIT));
    world.add(
        Quad::new(
            Point3::new(123 * UNIT, 554 * UNIT, 147 * UNIT),
            Vec3::new(300 * UNIT, 0, 0),
            Vec3::new(0, 0, 265 * UNIT),
            light,
        ),
    );
    let center1 = Point3::new(400 * UNIT, 400 * UNIT, 200 * UNIT);
    let center2 = center1.add(&Vec3::new(30 * UNIT, 0, 0));
    let sphere_material = Lambertian::new(Color::new(700_000, 300_000, 100_000));
    world.add(Sphere::new_moving(center1, center2, 50 * UNIT, sphere_material));
    world.add(
        Sphere::new(
            Point3::new(260 * UNIT, 150 * UNIT, 45 * UNIT),
            50 * UNIT,
            Dielectric::new_clear(1_500_000),
        ),
    );
    world.add(
        Sphere::new(
            Point3::new(0, 150 * UNIT, 145 * UNIT),
            50 * UNIT,
            Metal::new(Color::new(800_000, 800_000, 900_000), UNIT),
        ),
    );
    let boundary_center = Point3::new(360 * UNIT, 150 * UNIT, 145 * UNIT);
    world.add(Sphere::new(boundary_center, 70 * UNIT, Dielectric::new_clear(1_500_000)));
    let boundary = Sphere::new(boundary_center, 70 * UNIT, Dielectric::new_clear(1_500_000));
    world.add(
        ConstantMedium::new(Arc::new(boundary), 200_000, Color::new(200_000, 400_000, 900_000)),
    );
    let boundary = Sphere::new(Point3::new_zero(), 5000 * UNIT, Dielectric::new_clear(1_500_000));
    world.add(ConstantMedium::new(Arc::new(boundary), 100, Color::new(UNIT, UNIT, UNIT)));
    let emat = Lambertian::from_texture(Arc::new(ImageTexture::new("earthmap.jpg")));
    world.add(Sphere::new(Point3::new(400 * UNIT, 200 * UNIT, 400 * UNIT), 100 * UNIT, emat));
    let pertext = NoiseTexture::new(100_000);
    world.add(
        Sphere::new(
            Point3::new(220 * UNIT, 280 * UNIT, 300 * UNIT),
            80 * UNIT,
            Lambertian::from_texture(Arc::new(pertext)),
        ),
    );
    let mut boxes2 = HittableList::new();
    let white = Lambertian::new(Color::new(730_000, 730_000, 730_000));
    let ns: usize = 1000;
    let mut k: usize = 0;
    while k < ns
        invariant
            k <= ns == 1000,
            boxes2.objects@.len() == k,
            boxes2.wf(),
            all_bounded(boxes2.objects@),
            forall|n: int|
                0 <= n < boxes2.objects@.len() ==> (#[trigger] boxes2.objects@[n]).bbox_spec().unwrap().inside(
                    cluster_bounds(),
                ),
        decreases ns - k,
    {
        let center = Point3::new(
            random_int(0, 165 * UNIT - 1),
            random_int(0, 165 * UNIT - 1),
            random_int(0, 165 * UNIT - 1),
        );
        boxes2.add(Sphere::new(center, 10 * UNIT, white.clone()));
        k = k + 1;
    }
    let cluster_list = boxes2.create_bvh();
    proof {
        let node = cluster_list.objects@[0]->Node_0;
        lemma_bvh_box_inside(&*node, cluster_bounds());
    }
    let cluster = RotateY::new(
        Arc::new(Object::List(Arc::new(cluster_list))),
        SIN_15_DEGREES,
        COS_15_DEGREES,
    );
    world.add(Translate::new(Arc::new(cluster), Vec3::new(-100 * UNIT, 270 * UNIT, 395 * UNIT)));
    let camera = Camera::new(
        1,
        1,
        image_width,
        samples_per_pixel,
        max_depth,
        40 * UNIT,
        Point3::new(478 * UNIT, 278 * UNIT, -600 * UNIT),
        Point3::new(278 * UNIT, 278 * UNIT, 0),
        Vec3::new(0, UNIT, 0),
        0,
        0,
        Color::new_zero(),
    );
    Scene { world, camera, suns: Vec::new() }
}

} // verus!
