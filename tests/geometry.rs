use pathtracer::aabb::Aabb;
use pathtracer::interval::Interval;
use pathtracer::material::{Lambertian, Material, Metal};
use pathtracer::object::{make_box, Object, Quad, Sphere};
use pathtracer::transform::{RotateY, Translate};
use pathtracer::vec3::{Color, Point3, Vec3, UNIT};
use std::sync::Arc;

fn grey() -> Material {
    Lambertian::new(Color::new(500_000, 500_000, 500_000))
}

fn bbox(o: &Object) -> Aabb {
    o.bounding_box().expect("bounded object")
}

#[test]
fn vector_arithmetic_is_componentwise() {
    let a = Vec3::new(1, -2, 3);
    let b = Vec3::new(10, 20, -30);
    assert_eq!(a.add(&b), Vec3::new(11, 18, -27));
    assert_eq!(a.sub(&b), Vec3::new(-9, -22, 33));
    assert_eq!(a.neg(), Vec3::new(-1, 2, -3));
    assert_eq!(a.dim(0), 1);
    assert_eq!(a.dim(1), -2);
    assert_eq!(a.dim(2), 3);
    assert!(Vec3::new_zero().near_zero());
    assert!(!a.near_zero());
}

#[test]
fn interval_queries() {
    let i = Interval::new(-5, 5);
    assert!(i.contains(5));
    assert!(!i.surrounds(5));
    assert!(i.surrounds(4));
    assert_eq!(i.clamp(9), 5);
    assert_eq!(i.clamp(-9), -5);
    assert_eq!(i.clamp(2), 2);
    assert_eq!(i.size(), 10);
    assert_eq!(i.expand(100), Interval::new(-55, 55));
    assert_eq!(i.add(7), Interval::new(2, 12));
    let j = Interval::new(3, 20);
    assert_eq!(Interval::from_intervals(&i, &j), Interval::new(-5, 20));
    assert_eq!(Interval::from_intervals(&Interval::empty(), &j), j);
    assert!(!Interval::empty().contains(0));
    assert!(Interval::universe().contains(i64::MIN));
}

#[test]
fn aabb_union_holds_both_boxes_and_is_tight() {
    let a = Aabb::from_points(&Point3::new(0, 0, 0), &Point3::new(1, 1, 1));
    let b = Aabb::from_points(&Point3::new(5, -3, 2), &Point3::new(4, -2, 3));
    let u = Aabb::from_boxes(&a, &b);
    assert_eq!(u.x, Interval::new(0, 5));
    assert_eq!(u.y, Interval::new(-3, 1));
    assert_eq!(u.z, Interval::new(0, 3));
    for p in [(0, 0, 0), (1, 1, 1), (5, -3, 2), (4, -2, 3)] {
        assert!(u.x.contains(p.0) && u.y.contains(p.1) && u.z.contains(p.2));
    }
    assert_eq!(Aabb::from_boxes(&Aabb::empty(), &a), a);
    assert_eq!(Aabb::from_boxes(&a, &Aabb::empty()), a);
}

#[test]
fn aabb_pad_and_shift() {
    let flat = Aabb::from_points(&Point3::new(0, 0, 7), &Point3::new(1000, 1000, 7));
    let padded = flat.pad();
    assert_eq!(padded.x, Interval::new(0, 1000));
    assert_eq!(padded.z, Interval::new(-43, 57));
    let moved = flat.add(&Vec3::new(1, 2, 3));
    assert_eq!(moved.x, Interval::new(1, 1001));
    assert_eq!(moved.y, Interval::new(2, 1002));
    assert_eq!(moved.z, Interval::new(10, 10));
    assert_eq!(flat.axis(2), Interval::new(7, 7));
}

#[test]
fn sphere_boxes() {
    let s = Sphere::new(Point3::new(0, 0, -UNIT), UNIT / 2, grey());
    let b = bbox(&s);
    assert_eq!(b.x, Interval::new(-500_000, 500_000));
    assert_eq!(b.z, Interval::new(-1_500_000, -500_000));
    let hollow = Sphere::new(Point3::new(0, 0, 0), -400_000, grey());
    assert_eq!(bbox(&hollow).y, Interval::new(-400_000, 400_000));
    let moving = Sphere::new_moving(Point3::new(0, 0, 0), Point3::new(0, 3 * UNIT, 0), UNIT, grey());
    let m = bbox(&moving);
    assert_eq!(m.y, Interval::new(-UNIT, 4 * UNIT));
    assert_eq!(m.x, Interval::new(-UNIT, UNIT));
    match moving {
        Object::Sphere(s) => assert_eq!(s.center_vec, Some(Vec3::new(0, 3 * UNIT, 0))),
        _ => panic!("not a sphere"),
    }
}

#[test]
fn quad_box_is_padded() {
    let q = Quad::new(Point3::new(0, 0, 0), Vec3::new(2 * UNIT, 0, 0), Vec3::new(0, 3 * UNIT, 0), grey());
    let b = bbox(&q);
    assert_eq!(b.x, Interval::new(0, 2 * UNIT));
    assert_eq!(b.y, Interval::new(0, 3 * UNIT));
    assert_eq!(b.z, Interval::new(-50, 50));
}

#[test]
fn make_box_grows_by_half_the_padding() {
    let o = make_box(&Point3::new(3 * UNIT, 0, 0), &Point3::new(0, 2 * UNIT, UNIT), &grey());
    let b = bbox(&o);
    assert_eq!(b.x, Interval::new(-50, 3 * UNIT + 50));
    assert_eq!(b.y, Interval::new(-50, 2 * UNIT + 50));
    assert_eq!(b.z, Interval::new(-50, UNIT + 50));
    match o {
        Object::List(l) => assert_eq!(l.objects.len(), 6),
        _ => panic!("not a list"),
    }
}

#[test]
fn transforms_move_and_widen_boxes() {
    let s = Sphere::new(Point3::new(2 * UNIT, 0, -UNIT), UNIT, grey());
    let t = Translate::new(Arc::new(s.clone()), Vec3::new(0, 5 * UNIT, 0));
    let b = bbox(&t);
    assert_eq!(b.y, Interval::new(4 * UNIT, 6 * UNIT));
    assert_eq!(b.x, Interval::new(UNIT, 3 * UNIT));
    let unturned = RotateY::new(Arc::new(s.clone()), 0, UNIT);
    assert_eq!(bbox(&unturned), bbox(&s));
    let quarter = RotateY::new(Arc::new(s.clone()), UNIT, 0);
    let qb = bbox(&quarter);
    assert_eq!(qb.x, Interval::new(-2 * UNIT, 0));
    assert_eq!(qb.z, Interval::new(-3 * UNIT, -UNIT));
    assert_eq!(qb.y, Interval::new(-UNIT, UNIT));
    let unit_sphere = Sphere::new(Point3::new(2 * UNIT, 0, 0), UNIT, grey());
    let half = RotateY::new(Arc::new(unit_sphere), 0, -UNIT);
    assert_eq!(bbox(&half).x, Interval::new(-3 * UNIT, -UNIT));
    // 30 degrees: corners (1, -1) .. (3, 1) units turned to
    // x = c x + s z and z = c z - s x, rounded down to the grid.
    let (sin30, cos30) = (500_000, 866_025);
    let b = Aabb::from_points(&Point3::new(UNIT, -UNIT, -UNIT), &Point3::new(3 * UNIT, UNIT, UNIT));
    let r = RotateY::new(Arc::new(Sphere::new(Point3::new(2 * UNIT, 0, 0), UNIT, grey())), sin30, cos30);
    let rb = bbox(&r);
    let tx = |x: i64, z: i64| (cos30 as i128 * x as i128 + sin30 as i128 * z as i128).div_euclid(UNIT as i128) as i64;
    let tz = |x: i64, z: i64| (cos30 as i128 * z as i128 - sin30 as i128 * x as i128).div_euclid(UNIT as i128) as i64;
    let corners = [(b.x.min, b.z.min), (b.x.min, b.z.max), (b.x.max, b.z.min), (b.x.max, b.z.max)];
    assert_eq!(rb.x.min, corners.iter().map(|c| tx(c.0, c.1)).min().unwrap());
    assert_eq!(rb.x.max, corners.iter().map(|c| tx(c.0, c.1)).max().unwrap());
    assert_eq!(rb.z.min, corners.iter().map(|c| tz(c.0, c.1)).min().unwrap());
    assert_eq!(rb.z.max, corners.iter().map(|c| tz(c.0, c.1)).max().unwrap());
    assert_eq!(rb.x.min, 366_025);
    assert_eq!(rb.x.max, 3_098_075);
    assert_eq!(rb.y, Interval::new(-UNIT, UNIT));
}

#[test]
fn metal_fuzz_is_capped_at_one_unit() {
    match Metal::new(Color::new(1, 2, 3), 3 * UNIT) {
        Material::Metal(m) => {
            assert_eq!(m.fuzz, UNIT);
            assert_eq!(m.albedo, Color::new(1, 2, 3));
        }
        _ => panic!("not a metal"),
    }
    match Metal::new(Color::new(1, 2, 3), UNIT / 4) {
        Material::Metal(m) => assert_eq!(m.fuzz, UNIT / 4),
        _ => panic!("not a metal"),
    }
}

#[test]
fn make_box_faces_are_the_six_sides() {
    let a = Point3::new(3 * UNIT, 0, 0);
    let b = Point3::new(0, 2 * UNIT, UNIT);
    let faces = |o: &Object| -> Vec<(Point3, Vec3, Vec3)> {
        match o {
            Object::List(l) => l
                .objects
                .iter()
                .map(|f| match f {
                    Object::Quad(q) => (q.q, q.u, q.v),
                    _ => panic!("not a face"),
                })
                .collect(),
            _ => panic!("not a list"),
        }
    };
    let (dx, dy, dz) = (Vec3::new(3 * UNIT, 0, 0), Vec3::new(0, 2 * UNIT, 0), Vec3::new(0, 0, UNIT));
    let expected = vec![
        (Point3::new(0, 0, UNIT), dx, dy),
        (Point3::new(3 * UNIT, 0, UNIT), dz.neg(), dy),
        (Point3::new(3 * UNIT, 0, 0), dx.neg(), dy),
        (Point3::new(0, 0, 0), dz, dy),
        (Point3::new(0, 2 * UNIT, UNIT), dx, dz.neg()),
        (Point3::new(0, 0, 0), dx, dz),
    ];
    assert_eq!(faces(&make_box(&a, &b, &grey())), expected);
    assert_eq!(faces(&make_box(&b, &a, &grey())), expected);
}
