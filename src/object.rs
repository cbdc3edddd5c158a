use vstd::prelude::*;

use std::sync::Arc;

use crate::aabb::{Aabb, PAD_DELTA};
use crate::interval::Interval;
use crate::constant_medium::ConstantMedium;
use crate::hittable::{Bvh, HittableList};
use crate::material::Material;
use crate::transform::Transform;
use crate::vec3::{in_range, Color, Point3, Vec3, COORD_MAX};

verus! {

/// A node of the scene graph.
#[derive(Clone, Debug)]
pub enum Object {
    Sphere(Sphere),
    List(Arc<HittableList>),
    Node(Arc<Bvh>),
    Plane(Plane),
    Quad(Quad),
    Transform(Transform),
    Volume(ConstantMedium),
}

impl Object {
    /// The box that bounds the object; `None` for an unbounded one.
    pub open spec fn bbox_spec(&self) -> Option<Aabb> {
        match self {
            Object::Sphere(s) => Some(s.bbox),
            Object::List(l) => Some(l.bbox),
            Object::Node(n) => Some(n.bbox),
            Object::Plane(_) => None,
            Object::Quad(q) => Some(q.bbox),
            Object::Transform(t) => Some(t.bbox_spec()),
            Object::Volume(m) => m.bbox,
        }
    }

    pub fn bounding_box(&self) -> (r: Option<Aabb>)
        ensures
            r == self.bbox_spec(),
    {
        match self {
            Object::Sphere(s) => Some(s.bbox),
            Object::List(l) => Some(l.bbox),
            Object::Node(n) => Some(n.bbox),
            Object::Plane(_) => None,
            Object::Quad(q) => Some(q.bbox),
            Object::Transform(t) => Some(t.bounding_box()),
            Object::Volume(m) => m.bbox,
        }
    }
}

/// The box of a sphere of centre `c` and radius `r` (a negative radius
/// gives the same box).
pub open spec fn sphere_box(c: Point3, r: i64) -> Aabb {
    let rvec = Vec3 { x: r, y: r, z: r };
    Aabb::from_points_spec(c.minus(rvec), c.plus(rvec))
}

/// A sphere; when `center_vec` is set its centre moves from `center` to
/// `center + center_vec` over the shutter interval.
#[derive(Clone, Debug)]
pub struct Sphere {
    pub center: Point3,
    pub radius: i64,
    pub mat: Material,
    pub center_vec: Option<Vec3>,
    pub bbox: Aabb,
}

impl Sphere {
    /// A still sphere. A negative radius turns the surface normals inward.
    pub fn new(center: Point3, radius: i64, mat: Material) -> (r: Object)
        requires
            center.bounded(),
            in_range(radius as int),
        ensures
            r matches Object::Sphere(s) && s.center == center && s.radius == radius
                && s.center_vec.is_none() && s.bbox == sphere_box(center, radius),
    {
        let rvec = Vec3::new(radius, radius, radius);
        let bbox = Aabb::from_points(&center.sub(&rvec), &center.add(&rvec));
        Object::Sphere(Sphere { center, radius, mat, center_vec: None, bbox })
    }

    /// A sphere moving from `center1` to `center2`; its box holds both
    /// positions, hence the whole motion.
    pub fn new_moving(center1: Point3, center2: Point3, radius: i64, mat: Material) -> (r: Object)
        requires
            center1.bounded(),
            center2.bounded(),
            in_range(radius as int),
        ensures
            r matches Object::Sphere(s) && s.center == center1 && s.radius == radius
                && s.center_vec == Some(center2.minus(center1)) && s.bbox == Aabb::union_spec(
                sphere_box(center1, radius),
                sphere_box(center2, radius),
            ),
    {
        let rvec = Vec3::new(radius, radius, radius);
        let box1 = Aabb::from_points(&center1.sub(&rvec), &center1.add(&rvec));
        let box2 = Aabb::from_points(&center2.sub(&rvec), &center2.add(&rvec));
        Object::Sphere(
            Sphere {
                center: center1,
                radius,
                mat,
                center_vec: Some(center2.sub(&center1)),
                bbox: Aabb::from_boxes(&box1, &box2),
            },
        )
    }
}

/// A directional light infinitely far away, seen as a disc of
/// `angular_diameter` degrees (fixed point) around `direction`.
#[derive(Clone, Debug)]
pub struct Sun {
    pub direction: Vec3,
    pub albedo: Color,
    pub angular_diameter: i64,
}

impl Sun {
    pub fn new(direction: Vec3, albedo: Color, angular_diameter: i64) -> (r: Sun)
        ensures
            r.direction == direction && r.albedo == albedo && r.angular_diameter
                == angular_diameter,
    {
        Sun { direction, albedo, angular_diameter }
    }
}

/// An infinite plane through `point` with normal `normal`; it has no box.
#[derive(Clone, Debug)]
pub struct Plane {
    pub point: Point3,
    pub normal: Vec3,
    pub mat: Material,
}

impl Plane {
    pub fn new(point: Point3, normal: Vec3, mat: Material) -> (r: Object)
        ensures
            r matches Object::Plane(p) && p.point == point && p.normal == normal,
            r.bbox_spec().is_none(),
    {
        Object::Plane(Plane { point, normal, mat })
    }
}

/// The box of the parallelogram with corner `q` and edges `u` and `v`: the
/// box of its diagonal, padded so that it has volume.
pub open spec fn quad_box(q: Point3, u: Vec3, v: Vec3) -> Aabb {
    Aabb::from_points_spec(q, q.plus(u).plus(v)).pad_spec()
}

/// A parallelogram with corner `q` and edges `u` and `v`.
#[derive(Clone, Debug)]
pub struct Quad {
    pub q: Point3,
    pub u: Vec3,
    pub v: Vec3,
    pub mat: Material,
    pub bbox: Aabb,
}

impl Quad {
    pub fn new(q: Point3, u: Vec3, v: Vec3, mat: Material) -> (r: Object)
        requires
            q.bounded(),
            u.within(2 * COORD_MAX),
            v.within(2 * COORD_MAX),
        ensures
            r matches Object::Quad(s) && s.q == q && s.u == u && s.v == v && s.bbox == quad_box(
                q,
                u,
                v,
            ),
    {
        let diagonal = q.add(&u).add(&v);
        let bbox = Aabb::from_points(&q, &diagonal).pad();
        Object::Quad(Quad { q, u, v, mat, bbox })
    }
}


/// `b` grown by half the padding thickness on every side.
pub open spec fn grown(b: Aabb) -> Aabb {
    Aabb {
        x: Interval { min: (b.x.min - PAD_DELTA / 2) as i64, max: (b.x.max + PAD_DELTA / 2) as i64 },
        y: Interval { min: (b.y.min - PAD_DELTA / 2) as i64, max: (b.y.max + PAD_DELTA / 2) as i64 },
        z: Interval { min: (b.z.min - PAD_DELTA / 2) as i64, max: (b.z.max + PAD_DELTA / 2) as i64 },
    }
}

/// The corner of the box spanned by `a` and `b` with the lower coordinates.
pub open spec fn box_lo(a: Point3, b: Point3) -> Point3 {
    Vec3 {
        x: if a.x <= b.x { a.x } else { b.x },
        y: if a.y <= b.y { a.y } else { b.y },
        z: if a.z <= b.z { a.z } else { b.z },
    }
}

/// The corner of the box spanned by `a` and `b` with the higher coordinates.
pub open spec fn box_hi(a: Point3, b: Point3) -> Point3 {
    Vec3 {
        x: if a.x >= b.x { a.x } else { b.x },
        y: if a.y >= b.y { a.y } else { b.y },
        z: if a.z >= b.z { a.z } else { b.z },
    }
}

/// Face `k` of the box `[lo, hi]` as corner and two edges: front (z = hi),
/// right (x = hi), back (z = lo), left (x = lo), top (y = hi), bottom (y = lo).
pub open spec fn box_face(lo: Point3, hi: Point3, k: int) -> (Point3, Vec3, Vec3) {
    let dx = Vec3 { x: (hi.x - lo.x) as i64, y: 0, z: 0 };
    let dy = Vec3 { x: 0, y: (hi.y - lo.y) as i64, z: 0 };
    let dz = Vec3 { x: 0, y: 0, z: (hi.z - lo.z) as i64 };
    let ndx = Vec3 { x: (lo.x - hi.x) as i64, y: 0, z: 0 };
    let ndz = Vec3 { x: 0, y: 0, z: (lo.z - hi.z) as i64 };
    if k == 0 {
        (Vec3 { x: lo.x, y: lo.y, z: hi.z }, dx, dy)
    } else if k == 1 {
        (Vec3 { x: hi.x, y: lo.y, z: hi.z }, ndz, dy)
    } else if k == 2 {
        (Vec3 { x: hi.x, y: lo.y, z: lo.z }, ndx, dy)
    } else if k == 3 {
        (Vec3 { x: lo.x, y: lo.y, z: lo.z }, dz, dy)
    } else if k == 4 {
        (Vec3 { x: lo.x, y: hi.y, z: hi.z }, dx, ndz)
    } else {
        (Vec3 { x: lo.x, y: lo.y, z: lo.z }, dx, dz)
    }
}

/// The closed box with opposite corners `a` and `b`, as a list of its six
/// faces. As each face is flat its box is padded, so the list's box is the
/// box of the corners grown by half the padding on every side.
#[verifier::rlimit(100)]
pub fn make_box(a: &Point3, b: &Point3, mat: &Material) -> (r: Object)
    requires
        a.bounded(),
        b.bounded(),
    ensures
        r is List,
        r->List_0.wf(),
        r->List_0.objects@.len() == 6,
        r->List_0.bbox == grown(Aabb::from_points_spec(*a, *b)),
        forall|k: int|
            0 <= k < 6 ==> (#[trigger] r->List_0.objects@[k]) is Quad && {
                let f = box_face(box_lo(*a, *b), box_hi(*a, *b), k);
                r->List_0.objects@[k]->Quad_0.q == f.0 && r->List_0.objects@[k]->Quad_0.u == f.1
                    && r->List_0.objects@[k]->Quad_0.v == f.2
            },
{
    let mut sides = HittableList::new();
    let min = Point3::new(
        if a.x <= b.x { a.x } else { b.x },
        if a.y <= b.y { a.y } else { b.y },
        if a.z <= b.z { a.z } else { b.z },
    );
    let max = Point3::new(
        if a.x >= b.x { a.x } else { b.x },
        if a.y >= b.y { a.y } else { b.y },
        if a.z >= b.z { a.z } else { b.z },
    );
    let dx = Vec3::new(max.x - min.x, 0, 0);
    let dy = Vec3::new(0, max.y - min.y, 0);
    let dz = Vec3::new(0, 0, max.z - min.z);
    sides.add(Quad::new(Point3::new(min.x, min.y, max.z), dx, dy, mat.clone()));
    sides.add(Quad::new(Point3::new(max.x, min.y, max.z), dz.neg(), dy, mat.clone()));
    sides.add(Quad::new(Point3::new(max.x, min.y, min.z), dx.neg(), dy, mat.clone()));
    sides.add(Quad::new(Point3::new(min.x, min.y, min.z), dz, dy, mat.clone()));
    sides.add(Quad::new(Point3::new(min.x, max.y, max.z), dx, dz.neg(), mat.clone()));
    sides.add(Quad::new(Point3::new(min.x, min.y, min.z), dx, dz, mat.clone()));
    Object::List(Arc::new(sides))
}

} // verus!
