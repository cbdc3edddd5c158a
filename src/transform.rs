use vstd::prelude::*;

use std::sync::Arc;

use crate::aabb::{Aabb, BOX_LIMIT};
use crate::interval::Interval;
use crate::object::Object;
use crate::vec3::{Vec3, UNIT};
use vstd::arithmetic::div_mod::{lemma_div_is_ordered, lemma_div_multiples_vanish, lemma_hoist_over_denominator};

verus! {

/// An object placed by a rigid motion.
#[derive(Clone, Debug)]
pub enum Transform {
    Translate(Translate),
    RotY(RotateY),
}

impl Transform {
    pub open spec fn bbox_spec(&self) -> Aabb {
        match self {
            Transform::Translate(t) => t.bbox,
            Transform::RotY(r) => r.bbox,
        }
    }

    pub fn bounding_box(&self) -> (r: Aabb)
        ensures
            r == self.bbox_spec(),
    {
        match self {
            Transform::Translate(t) => t.bbox,
            Transform::RotY(r) => r.bbox,
        }
    }
}

/// `object` moved by `offset`.
#[derive(Clone, Debug)]
pub struct Translate {
    pub object: Arc<Object>,
    pub offset: Vec3,
    pub bbox: Aabb,
}

impl Translate {
    /// The object moved by `displacement`; its box is moved with it. Only a
    /// bounded object can be moved.
    pub fn new(p: Arc<Object>, displacement: Vec3) -> (r: Object)
        requires
            p.bbox_spec() is Some,
            p.bbox_spec().unwrap().shift_fits(displacement),
        ensures
            r matches Object::Transform(Transform::Translate(t)) && t.object == p && t.offset
                == displacement && t.bbox == p.bbox_spec().unwrap().shift_spec(displacement),
    {
        let inner = p.bounding_box().unwrap();
        let bbox = inner.add(&displacement);
        Object::Transform(Transform::Translate(Translate { bbox, object: p, offset: displacement }))
    }
}

/// `p * a + q * b` in fixed point, rounded down: with `(p, q)` the cosine and
/// sine of an angle, the first coordinate of `(a, b)` turned by it.
pub open spec fn turn(a: int, b: int, p: int, q: int) -> int {
    (p * a + q * b) / (UNIT as int)
}

/// New x of the point `(x, z)` turned about the y axis by the angle of sine
/// `s` and cosine `c`: `c x + s z`.
pub open spec fn turn_x(x: int, z: int, s: int, c: int) -> int {
    turn(x, z, c, s)
}

/// New z of the point `(x, z)` turned about the y axis: `c z - s x`.
pub open spec fn turn_z(x: int, z: int, s: int, c: int) -> int {
    turn(z, x, c, -s)
}

pub open spec fn min4(a: int, b: int, c: int, d: int) -> int {
    let m = if a <= b { a } else { b };
    let n = if c <= d { c } else { d };
    if m <= n { m } else { n }
}

pub open spec fn max4(a: int, b: int, c: int, d: int) -> int {
    let m = if a >= b { a } else { b };
    let n = if c >= d { c } else { d };
    if m >= n { m } else { n }
}

/// The axis-aligned union of the eight corners of `b` turned about the y axis
/// by the angle of sine `s` and cosine `c` (fixed point): y is kept, and x and
/// z span the turned positions of the four corners `(x, z)`.
pub open spec fn rotated_corners_box(b: Aabb, s: i64, c: i64) -> Aabb {
    let (x0, x1, z0, z1) = (b.x.min as int, b.x.max as int, b.z.min as int, b.z.max as int);
    Aabb {
        x: Interval {
            min: min4(turn_x(x0, z0, s as int, c as int), turn_x(x0, z1, s as int, c as int),
                turn_x(x1, z0, s as int, c as int), turn_x(x1, z1, s as int, c as int)) as i64,
            max: max4(turn_x(x0, z0, s as int, c as int), turn_x(x0, z1, s as int, c as int),
                turn_x(x1, z0, s as int, c as int), turn_x(x1, z1, s as int, c as int)) as i64,
        },
        y: b.y,
        z: Interval {
            min: min4(turn_z(x0, z0, s as int, c as int), turn_z(x0, z1, s as int, c as int),
                turn_z(x1, z0, s as int, c as int), turn_z(x1, z1, s as int, c as int)) as i64,
            max: max4(turn_z(x0, z0, s as int, c as int), turn_z(x0, z1, s as int, c as int),
                turn_z(x1, z0, s as int, c as int), turn_z(x1, z1, s as int, c as int)) as i64,
        },
    }
}

/// Turning by the zero angle (sine 0, cosine one unit) keeps a box as it is.
pub proof fn lemma_zero_turn_keeps_box(b: Aabb)
    requires
        b.nonempty(),
    ensures
        rotated_corners_box(b, 0, UNIT) == b,
{
    let ghost u = UNIT as int;
    assert forall|a: int, w: int| #[trigger] turn(a, w, u, 0) == a by {
        assert(u * a + 0 * w == a * u) by (nonlinear_arith);
        lemma_div_multiples_vanish(a, u);
        assert((u * a) / u == a);
    }
    assert(turn_x(b.x.min as int, b.z.min as int, 0, u) == b.x.min);
    assert(turn_x(b.x.max as int, b.z.min as int, 0, u) == b.x.max);
    assert(turn_x(b.x.min as int, b.z.max as int, 0, u) == b.x.min);
    assert(turn_x(b.x.max as int, b.z.max as int, 0, u) == b.x.max);
    assert(turn_z(b.x.min as int, b.z.min as int, 0, u) == b.z.min);
    assert(turn_z(b.x.max as int, b.z.min as int, 0, u) == b.z.min);
    assert(turn_z(b.x.min as int, b.z.max as int, 0, u) == b.z.max);
    assert(turn_z(b.x.max as int, b.z.max as int, 0, u) == b.z.max);
}

/// `(p * a + q * b) / UNIT` rounded down, for cosine and sine `p`, `q` of at
/// most one unit and coordinates of a moderate box.
fn turn_exec(a: i64, b: i64, p: i64, q: i64) -> (r: i64)
    requires
        -BOX_LIMIT <= a <= BOX_LIMIT,
        -BOX_LIMIT <= b <= BOX_LIMIT,
        -UNIT <= p <= UNIT,
        -UNIT <= q <= UNIT,
    ensures
        r == turn(a as int, b as int, p as int, q as int),
{
    let ghost bl = BOX_LIMIT as int;
    let ghost u = UNIT as int;
    proof {
        assert(-bl * u <= p * a <= bl * u) by (nonlinear_arith)
            requires
                -bl <= a <= bl,
                -u <= p <= u,
                bl > 0,
                u > 0,
        ;
        assert(-bl * u <= q * b <= bl * u) by (nonlinear_arith)
            requires
                -bl <= b <= bl,
                -u <= q <= u,
                bl > 0,
                u > 0,
        ;
    }
    let n: i128 = (p as i128) * (a as i128) + (q as i128) * (b as i128);
    let shift: i128 = 10_000_000_000_000_000_000;
    let d: i128 = UNIT as i128;
    let m: i128 = n + shift * d;
    let qd: i128 = m / d;
    proof {
        lemma_hoist_over_denominator(n as int, shift as int, d as nat);
        assert(qd == m / d);
    }
    let r: i128 = qd - shift;
    proof {
        assert(-2 * bl * u <= n <= 2 * bl * u);
        lemma_div_is_ordered(n as int, 2 * bl * u, u);
        lemma_div_is_ordered(-2 * bl * u, n as int, u);
        assert((2 * bl * u) / u == 2 * bl) by {
            lemma_div_multiples_vanish(2 * bl, u);
            assert(u * (2 * bl) == 2 * bl * u) by (nonlinear_arith);
        }
        assert((-2 * bl * u) / u == -2 * bl) by {
            lemma_div_multiples_vanish(-2 * bl, u);
            assert(u * (-2 * bl) == -2 * bl * u) by (nonlinear_arith);
        }
    }
    r as i64
}

/// `object` turned about the y axis by the angle of sine `sin_theta` and
/// cosine `cos_theta` (fixed point).
#[derive(Clone, Debug)]
pub struct RotateY {
    pub object: Arc<Object>,
    pub sin_theta: i64,
    pub cos_theta: i64,
    pub bbox: Aabb,
}

impl RotateY {
    /// The object turned about the y axis by the angle of sine `sin_theta` and
    /// cosine `cos_theta`. Its box is fixed here, once: the axis-aligned union
    /// of the eight turned corners of the object's box. Only a bounded object
    /// can be turned.
    pub fn new(p: Arc<Object>, sin_theta: i64, cos_theta: i64) -> (r: Object)
        requires
            p.bbox_spec() is Some,
            p.bbox_spec().unwrap().moderate(),
            -UNIT <= sin_theta <= UNIT,
            -UNIT <= cos_theta <= UNIT,
        ensures
            r matches Object::Transform(Transform::RotY(t)) && t.object == p && t.sin_theta
                == sin_theta && t.cos_theta == cos_theta && t.bbox == rotated_corners_box(
                p.bbox_spec().unwrap(),
                sin_theta,
                cos_theta,
            ),
    {
        let b = p.bounding_box().unwrap();
        let (x0, x1, z0, z1) = (b.x.min, b.x.max, b.z.min, b.z.max);
        let (s, c) = (sin_theta, cos_theta);
        let xa = turn_exec(x0, z0, c, s);
        let xb = turn_exec(x0, z1, c, s);
        let xc = turn_exec(x1, z0, c, s);
        let xd = turn_exec(x1, z1, c, s);
        let za = turn_exec(z0, x0, c, -s);
        let zb = turn_exec(z1, x0, c, -s);
        let zc = turn_exec(z0, x1, c, -s);
        let zd = turn_exec(z1, x1, c, -s);
        let bbox = Aabb::new(
            Interval::new(min4_exec(xa, xb, xc, xd), max4_exec(xa, xb, xc, xd)),
            b.y,
            Interval::new(min4_exec(za, zb, zc, zd), max4_exec(za, zb, zc, zd)),
        );
        Object::Transform(
            Transform::RotY(RotateY { object: p, sin_theta, cos_theta, bbox }),
        )
    }
}

fn min4_exec(a: i64, b: i64, c: i64, d: i64) -> (r: i64)
    ensures
        r == min4(a as int, b as int, c as int, d as int),
{
    let m = if a <= b { a } else { b };
    let n = if c <= d { c } else { d };
    if m <= n { m } else { n }
}

fn max4_exec(a: i64, b: i64, c: i64, d: i64) -> (r: i64)
    ensures
        r == max4(a as int, b as int, c as int, d as int),
{
    let m = if a >= b { a } else { b };
    let n = if c >= d { c } else { d };
    if m >= n { m } else { n }
}

} // verus!
