use vstd::prelude::*;

verus! {

/// Number of fixed-point steps in one unit: a scalar `s` of the scene model
/// stands for the real value `s / UNIT`.
pub const UNIT: i64 = 1_000_000;

/// Largest magnitude of a coordinate or radius of the scene model
/// (one billion units).
pub const COORD_MAX: i64 = 1_000_000_000_000_000;

/// Bound on the components that vector sums and differences take, so that
/// the results fit in an `i64`.
pub const HALF_RANGE: i64 = 4_000_000_000_000_000_000;

/// A scalar that the scene model accepts as a coordinate or a radius.
pub open spec fn in_range(v: int) -> bool {
    -COORD_MAX <= v <= COORD_MAX
}

/// Position, direction or colour with fixed-point components.
#[derive(Clone, Copy, Debug, PartialEq, Eq, Structural)]
pub struct Vec3 {
    pub x: i64,
    pub y: i64,
    pub z: i64,
}

/// A point of space.
pub type Point3 = Vec3;

/// A colour; each channel is a fixed-point intensity, `UNIT` being full scale.
pub type Color = Vec3;

impl Vec3 {
    /// All three components lie in [`in_range`].
    pub open spec fn bounded(self) -> bool {
        in_range(self.x as int) && in_range(self.y as int) && in_range(self.z as int)
    }

    /// The vector of components `x`, `y` and `z`.
    pub open spec fn new_spec(x: i64, y: i64, z: i64) -> Vec3 {
        Vec3 { x, y, z }
    }

    /// The zero vector.
    pub open spec fn new_zero_spec() -> Vec3 {
        Vec3 { x: 0, y: 0, z: 0 }
    }

    /// All three components lie within `m` of zero.
    pub open spec fn within(self, m: int) -> bool {
        -m <= self.x <= m && -m <= self.y <= m && -m <= self.z <= m
    }

    /// Componentwise sum.
    pub open spec fn plus(self, o: Vec3) -> Vec3 {
        Vec3 { x: (self.x + o.x) as i64, y: (self.y + o.y) as i64, z: (self.z + o.z) as i64 }
    }

    /// Componentwise difference.
    pub open spec fn minus(self, o: Vec3) -> Vec3 {
        Vec3 { x: (self.x - o.x) as i64, y: (self.y - o.y) as i64, z: (self.z - o.z) as i64 }
    }

    /// Component `n` (0 = x, 1 = y, 2 = z).
    pub open spec fn dim_spec(self, n: int) -> i64 {
        if n == 0 {
            self.x
        } else if n == 1 {
            self.y
        } else {
            self.z
        }
    }

    pub fn new(x: i64, y: i64, z: i64) -> (r: Vec3)
        ensures
            r == Self::new_spec(x, y, z),
    {
        Vec3 { x, y, z }
    }

    pub fn new_zero() -> (r: Vec3)
        ensures
            r == Self::new_zero_spec(),
    {
        Vec3 { x: 0, y: 0, z: 0 }
    }

    pub fn x(&self) -> (r: i64)
        ensures
            r == self.x,
    {
        self.x
    }

    pub fn y(&self) -> (r: i64)
        ensures
            r == self.y,
    {
        self.y
    }

    pub fn z(&self) -> (r: i64)
        ensures
            r == self.z,
    {
        self.z
    }

    /// Component `n`; an axis above 2 does not exist.
    pub fn dim(&self, n: u8) -> (r: i64)
        requires
            n < 3,
        ensures
            r == self.dim_spec(n as int),
    {
        if n == 0 {
            self.x
        } else if n == 1 {
            self.y
        } else {
            self.z
        }
    }

    /// Componentwise sum.
    pub fn add(&self, o: &Vec3) -> (r: Vec3)
        requires
            self.within(HALF_RANGE as int),
            o.within(HALF_RANGE as int),
        ensures
            r == self.plus(*o),
            r.x == self.x + o.x && r.y == self.y + o.y && r.z == self.z + o.z,
    {
        Vec3 { x: self.x + o.x, y: self.y + o.y, z: self.z + o.z }
    }

    /// Componentwise difference.
    pub fn sub(&self, o: &Vec3) -> (r: Vec3)
        requires
            self.within(HALF_RANGE as int),
            o.within(HALF_RANGE as int),
        ensures
            r == self.minus(*o),
            r.x == self.x - o.x && r.y == self.y - o.y && r.z == self.z - o.z,
    {
        Vec3 { x: self.x - o.x, y: self.y - o.y, z: self.z - o.z }
    }

    /// The opposite vector.
    pub fn neg(&self) -> (r: Vec3)
        requires
            self.within(HALF_RANGE as int),
        ensures
            r.x == -self.x && r.y == -self.y && r.z == -self.z,
    {
        Vec3 { x: -self.x, y: -self.y, z: -self.z }
    }

    /// Every component is zero: the fixed-point grid has no smaller nonzero step.
    pub fn near_zero(&self) -> (r: bool)
        ensures
            r == (self.x == 0 && self.y == 0 && self.z == 0),
    {
        self.x == 0 && self.y == 0 && self.z == 0
    }
}

} // verus!
