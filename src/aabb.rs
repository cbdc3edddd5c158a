use vstd::prelude::*;

use crate::interval::{empty_spec, Interval};
use crate::vec3::Vec3;

verus! {

/// Thickness below which a box is padded: one ten-thousandth of a unit.
pub const PAD_DELTA: i64 = 100;

/// Bound on a coordinate of a box that may be padded or measured.
pub const BOX_LIMIT: i64 = 2_000_000_000_000_000_000;

/// Axis-aligned bounding box: one interval per axis.
#[derive(Clone, Copy, Debug, PartialEq, Eq, Structural)]
pub struct Aabb {
    pub x: Interval,
    pub y: Interval,
    pub z: Interval,
}

/// An interval whose bounds both lie within `BOX_LIMIT` of zero.
pub open spec fn interval_moderate(i: Interval) -> bool {
    -BOX_LIMIT <= i.min <= BOX_LIMIT && -BOX_LIMIT <= i.max <= BOX_LIMIT
}

/// The interval after padding: kept when at least `PAD_DELTA` wide, else
/// widened by `PAD_DELTA`.
pub open spec fn pad_interval(i: Interval) -> Interval {
    if i.max - i.min >= PAD_DELTA {
        i
    } else {
        Interval { min: (i.min - PAD_DELTA / 2) as i64, max: (i.max + PAD_DELTA / 2) as i64 }
    }
}

impl Aabb {
    /// Interval on axis `n` (0 = x, 1 = y, 2 = z).
    pub open spec fn axis_spec(self, n: int) -> Interval {
        if n == 0 {
            self.x
        } else if n == 1 {
            self.y
        } else {
            self.z
        }
    }

    /// The point `(px, py, pz)` lies in the box.
    pub open spec fn contains_point(self, px: int, py: int, pz: int) -> bool {
        self.x.contains_spec(px) && self.y.contains_spec(py) && self.z.contains_spec(pz)
    }

    /// Every axis has `min <= max`: the box holds at least one point.
    pub open spec fn nonempty(self) -> bool {
        self.x.min <= self.x.max && self.y.min <= self.y.max && self.z.min <= self.z.max
    }

    /// Each point of `inner` lies in `self`.
    pub open spec fn encloses(self, inner: Aabb) -> bool {
        forall|px: int, py: int, pz: int|
            #[trigger] inner.contains_point(px, py, pz) ==> self.contains_point(px, py, pz)
    }

    /// The empty box.
    pub open spec fn empty_spec() -> Aabb {
        Aabb { x: empty_spec(), y: empty_spec(), z: empty_spec() }
    }

    /// Componentwise union.
    pub open spec fn union_spec(a: Aabb, b: Aabb) -> Aabb {
        Aabb {
            x: Interval::union_spec(a.x, b.x),
            y: Interval::union_spec(a.y, b.y),
            z: Interval::union_spec(a.z, b.z),
        }
    }

    /// The box spanned by two opposite corners, in either order.
    pub open spec fn from_points_spec(a: Vec3, b: Vec3) -> Aabb {
        Aabb {
            x: Interval {
                min: if a.x <= b.x { a.x } else { b.x },
                max: if a.x >= b.x { a.x } else { b.x },
            },
            y: Interval {
                min: if a.y <= b.y { a.y } else { b.y },
                max: if a.y >= b.y { a.y } else { b.y },
            },
            z: Interval {
                min: if a.z <= b.z { a.z } else { b.z },
                max: if a.z >= b.z { a.z } else { b.z },
            },
        }
    }

    /// Each bound of `self` lies inside the matching range of `c`.
    pub open spec fn inside(self, c: Aabb) -> bool {
        &&& c.x.min <= self.x.min <= c.x.max && c.x.min <= self.x.max <= c.x.max
        &&& c.y.min <= self.y.min <= c.y.max && c.y.min <= self.y.max <= c.y.max
        &&& c.z.min <= self.z.min <= c.z.max && c.z.min <= self.z.max <= c.z.max
    }

    /// All bounds lie within `BOX_LIMIT` of zero.
    pub open spec fn moderate(self) -> bool {
        interval_moderate(self.x) && interval_moderate(self.y) && interval_moderate(self.z)
    }

    /// The box after padding each axis.
    pub open spec fn pad_spec(self) -> Aabb {
        Aabb { x: pad_interval(self.x), y: pad_interval(self.y), z: pad_interval(self.z) }
    }

    /// The box moved by `offset`.
    pub open spec fn shift_spec(self, offset: Vec3) -> Aabb {
        Aabb {
            x: Interval { min: (self.x.min + offset.x) as i64, max: (self.x.max + offset.x) as i64 },
            y: Interval { min: (self.y.min + offset.y) as i64, max: (self.y.max + offset.y) as i64 },
            z: Interval { min: (self.z.min + offset.z) as i64, max: (self.z.max + offset.z) as i64 },
        }
    }

    /// Moving the box by `offset` stays within the integer range.
    pub open spec fn shift_fits(self, offset: Vec3) -> bool {
        &&& i64::MIN <= self.x.min + offset.x <= i64::MAX
        &&& i64::MIN <= self.x.max + offset.x <= i64::MAX
        &&& i64::MIN <= self.y.min + offset.y <= i64::MAX
        &&& i64::MIN <= self.y.max + offset.y <= i64::MAX
        &&& i64::MIN <= self.z.min + offset.z <= i64::MAX
        &&& i64::MIN <= self.z.max + offset.z <= i64::MAX
    }

    /// The box that holds no point; a union with it changes nothing.
    pub fn empty() -> (r: Aabb)
        ensures
            r == Self::empty_spec(),
    {
        Aabb { x: Interval::empty(), y: Interval::empty(), z: Interval::empty() }
    }

    pub fn new(x: Interval, y: Interval, z: Interval) -> (r: Aabb)
        ensures
            r.x == x && r.y == y && r.z == z,
    {
        Aabb { x, y, z }
    }

    /// The smallest box holding both boxes.
    pub fn from_boxes(box0: &Aabb, box1: &Aabb) -> (r: Aabb)
        ensures
            r == Self::union_spec(*box0, *box1),
    {
        Aabb {
            x: Interval::from_intervals(&box0.x, &box1.x),
            y: Interval::from_intervals(&box0.y, &box1.y),
            z: Interval::from_intervals(&box0.z, &box1.z),
        }
    }

    /// The box with `a` and `b` as opposite corners.
    pub fn from_points(a: &Vec3, b: &Vec3) -> (r: Aabb)
        ensures
            r == Self::from_points_spec(*a, *b),
    {
        Aabb {
            x: Interval::new(
                if a.x <= b.x { a.x } else { b.x },
                if a.x >= b.x { a.x } else { b.x },
            ),
            y: Interval::new(
                if a.y <= b.y { a.y } else { b.y },
                if a.y >= b.y { a.y } else { b.y },
            ),
            z: Interval::new(
                if a.z <= b.z { a.z } else { b.z },
                if a.z >= b.z { a.z } else { b.z },
            ),
        }
    }

    /// The interval on axis `n`; there is no axis above 2.
    pub fn axis(&self, n: u8) -> (r: Interval)
        requires
            n < 3,
        ensures
            r == self.axis_spec(n as int),
    {
        if n == 0 {
            self.x
        } else if n == 1 {
            self.y
        } else {
            self.z
        }
    }

    /// The box with every axis thinner than `PAD_DELTA` widened by
    /// `PAD_DELTA`, so that no box has zero volume.
    pub fn pad(&self) -> (r: Aabb)
        requires
            self.moderate(),
        ensures
            r == self.pad_spec(),
    {
        Aabb {
            x: if self.x.size() >= PAD_DELTA { self.x } else { self.x.expand(PAD_DELTA) },
            y: if self.y.size() >= PAD_DELTA { self.y } else { self.y.expand(PAD_DELTA) },
            z: if self.z.size() >= PAD_DELTA { self.z } else { self.z.expand(PAD_DELTA) },
        }
    }

    /// The box moved by `offset`.
    pub fn add(&self, offset: &Vec3) -> (r: Aabb)
        requires
            self.shift_fits(*offset),
        ensures
            r == self.shift_spec(*offset),
    {
        Aabb { x: self.x.add(offset.x), y: self.y.add(offset.y), z: self.z.add(offset.z) }
    }
}

/// The union of two boxes holds every point of either box.
pub proof fn lemma_union_encloses(a: Aabb, b: Aabb)
    ensures
        Aabb::union_spec(a, b).encloses(a),
        Aabb::union_spec(a, b).encloses(b),
{
}

/// A box that encloses a second box encloses whatever the second encloses.
pub proof fn lemma_encloses_transitive(a: Aabb, b: Aabb, c: Aabb)
    requires
        a.encloses(b),
        b.encloses(c),
    ensures
        a.encloses(c),
{
    assert forall|px: int, py: int, pz: int| #[trigger]
        c.contains_point(px, py, pz) implies a.contains_point(px, py, pz) by {
        assert(b.contains_point(px, py, pz));
    }
}

/// The union of two boxes holds every point of either box and is the smallest
/// such box: a box that holds every point of two nonempty boxes holds every
/// point of their union.
pub proof fn lemma_union_smallest(a: Aabb, b: Aabb, c: Aabb)
    requires
        a.nonempty(),
        b.nonempty(),
    ensures
        Aabb::union_spec(a, b).encloses(a),
        Aabb::union_spec(a, b).encloses(b),
        c.encloses(a) && c.encloses(b) ==> c.encloses(Aabb::union_spec(a, b)),
{
    let u = Aabb::union_spec(a, b);
    if c.encloses(a) && c.encloses(b) {
        assert(a.contains_point(a.x.min as int, a.y.min as int, a.z.min as int));
        assert(a.contains_point(a.x.max as int, a.y.max as int, a.z.max as int));
        assert(b.contains_point(b.x.min as int, b.y.min as int, b.z.min as int));
        assert(b.contains_point(b.x.max as int, b.y.max as int, b.z.max as int));
        assert forall|px: int, py: int, pz: int| #[trigger]
            u.contains_point(px, py, pz) implies c.contains_point(px, py, pz) by {
            assert(c.contains_point(a.x.min as int, a.y.min as int, a.z.min as int));
            assert(c.contains_point(a.x.max as int, a.y.max as int, a.z.max as int));
            assert(c.contains_point(b.x.min as int, b.y.min as int, b.z.min as int));
            assert(c.contains_point(b.x.max as int, b.y.max as int, b.z.max as int));
        }
    }
}

/// A union with the empty box gives the other box back.
pub proof fn lemma_union_empty_identity(a: Aabb)
    ensures
        Aabb::union_spec(Aabb::empty_spec(), a) == a,
        Aabb::union_spec(a, Aabb::empty_spec()) == a,
{
}

} // verus!
