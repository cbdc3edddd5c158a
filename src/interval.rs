use vstd::prelude::*;

verus! {

/// A closed range `[min, max]` of fixed-point scalars. It is empty when
/// `min > max`.
#[derive(Clone, Copy, Debug, PartialEq, Eq, Structural)]
pub struct Interval {
    pub min: i64,
    pub max: i64,
}

/// The empty interval: its bounds are the two extremes in the wrong order, so
/// that a union with it changes nothing.
pub open spec fn empty_spec() -> Interval {
    Interval { min: i64::MAX, max: i64::MIN }
}

impl Interval {
    /// `x` lies in the closed interval.
    pub open spec fn contains_spec(self, x: int) -> bool {
        self.min <= x <= self.max
    }

    /// The smallest interval holding both: the lower of the minima and the
    /// higher of the maxima.
    pub open spec fn union_spec(a: Interval, b: Interval) -> Interval {
        Interval {
            min: if a.min <= b.min { a.min } else { b.min },
            max: if a.max >= b.max { a.max } else { b.max },
        }
    }

    pub fn empty() -> (r: Interval)
        ensures
            r == empty_spec(),
    {
        Interval { min: i64::MAX, max: i64::MIN }
    }

    /// The interval of every representable scalar.
    pub fn universe() -> (r: Interval)
        ensures
            r.min == i64::MIN && r.max == i64::MAX,
    {
        Interval { min: i64::MIN, max: i64::MAX }
    }

    pub fn new(min: i64, max: i64) -> (r: Interval)
        ensures
            r.min == min && r.max == max,
    {
        Interval { min, max }
    }

    pub fn contains(&self, x: i64) -> (r: bool)
        ensures
            r == self.contains_spec(x as int),
    {
        self.min <= x && x <= self.max
    }

    /// `x` lies strictly inside.
    pub fn surrounds(&self, x: i64) -> (r: bool)
        ensures
            r == (self.min < x && x < self.max),
    {
        self.min < x && x < self.max
    }

    /// `x` moved to the nearest bound when it lies outside.
    pub fn clamp(&self, x: i64) -> (r: i64)
        ensures
            x < self.min ==> r == self.min,
            self.min <= x && x > self.max ==> r == self.max,
            self.min <= x <= self.max ==> r == x,
    {
        if x < self.min {
            self.min
        } else if x > self.max {
            self.max
        } else {
            x
        }
    }

    /// Width of the interval.
    pub fn size(&self) -> (r: i64)
        requires
            i64::MIN <= self.max - self.min <= i64::MAX,
        ensures
            r == self.max - self.min,
    {
        self.max - self.min
    }

    /// The interval widened by `delta`, half of it on each side.
    pub fn expand(&self, delta: i64) -> (r: Interval)
        requires
            delta >= 0,
            i64::MIN <= self.min - delta / 2,
            self.max + delta / 2 <= i64::MAX,
        ensures
            r.min == self.min - delta / 2,
            r.max == self.max + delta / 2,
    {
        let padding = delta / 2;
        Interval { min: self.min - padding, max: self.max + padding }
    }

    /// The smallest interval that holds both `a` and `b`.
    pub fn from_intervals(a: &Interval, b: &Interval) -> (r: Interval)
        ensures
            r == Self::union_spec(*a, *b),
    {
        Interval {
            min: if a.min <= b.min { a.min } else { b.min },
            max: if a.max >= b.max { a.max } else { b.max },
        }
    }

    /// The interval moved by `displacement`.
    pub fn add(&self, displacement: i64) -> (r: Interval)
        requires
            i64::MIN <= self.min + displacement <= i64::MAX,
            i64::MIN <= self.max + displacement <= i64::MAX,
        ensures
            r.min == self.min + displacement,
            r.max == self.max + displacement,
    {
        Interval { min: self.min + displacement, max: self.max + displacement }
    }
}

/// A union with the empty interval gives the other interval back.
pub proof fn lemma_union_empty_identity(a: Interval)
    ensures
        Interval::union_spec(empty_spec(), a) == a,
        Interval::union_spec(a, empty_spec()) == a,
{
}

} // verus!
