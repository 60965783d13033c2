//! A sample of a depth-varying quantity.

use std::cmp::Ordering;
use vstd::prelude::*;
use vstd::std_specs::cmp::PartialEqSpecImpl;
use vstd::std_specs::cmp::PartialOrdSpecImpl;
use vstd::std_specs::ops::AddSpecImpl;
use vstd::std_specs::ops::MulSpecImpl;
use crate::fixed::fixed_mul;
use crate::fixed::mul_floor;

verus! {

/// A depth `x` and the value `y` of a quantity there, both in millionths.
#[derive(Debug, Clone, Copy)]
pub struct Point {
    pub x: i64,
    pub y: i64,
}

impl Point {
    #[must_use]
    pub fn new(x: i64, y: i64) -> (point: Self)
        ensures
            point.x == x,
            point.y == y,
    {
        Self { x, y }
    }

    #[must_use]
    pub fn x(&self) -> (x: i64)
        ensures
            x == self.x,
    {
        self.x
    }

    #[must_use]
    pub fn y(&self) -> (y: i64)
        ensures
            y == self.y,
    {
        self.y
    }
}

/// Points are equal where their depths are.
impl PartialEq for Point {
    fn eq(&self, other: &Self) -> (equal: bool) {
        self.x == other.x
    }
}

impl PartialEqSpecImpl for Point {
    open spec fn obeys_eq_spec() -> bool {
        true
    }

    open spec fn eq_spec(&self, other: &Self) -> bool {
        self.x == other.x
    }
}

impl Eq for Point {

}

/// Points are ordered by depth.
impl PartialOrd for Point {
    fn partial_cmp(&self, other: &Self) -> (order: Option<Ordering>) {
        if self.x < other.x {
            Some(Ordering::Less)
        } else if self.x > other.x {
            Some(Ordering::Greater)
        } else {
            Some(Ordering::Equal)
        }
    }
}

impl PartialOrdSpecImpl for Point {
    open spec fn obeys_partial_cmp_spec() -> bool {
        true
    }

    open spec fn partial_cmp_spec(&self, other: &Self) -> Option<Ordering> {
        if self.x < other.x {
            Some(Ordering::Less)
        } else if self.x > other.x {
            Some(Ordering::Greater)
        } else {
            Some(Ordering::Equal)
        }
    }
}

/// Points add by coordinate.
impl std::ops::Add<Point> for Point {
    type Output = Point;

    fn add(self, rhs: Point) -> (sum: Point) {
        Point::new(self.x + rhs.x, self.y + rhs.y)
    }
}

impl AddSpecImpl<Point> for Point {
    open spec fn obeys_add_spec() -> bool {
        true
    }

    /// Both sums are quantities.
    open spec fn add_req(self, rhs: Point) -> bool {
        &&& i64::MIN <= self.x + rhs.x <= i64::MAX
        &&& i64::MIN <= self.y + rhs.y <= i64::MAX
    }

    open spec fn add_spec(self, rhs: Point) -> Point {
        Point { x: (self.x + rhs.x) as i64, y: (self.y + rhs.y) as i64 }
    }
}

/// A point times a quantity, by coordinate.
impl std::ops::Mul<i64> for &Point {
    type Output = Point;

    fn mul(self, rhs: i64) -> (scaled: Point) {
        Point::new(fixed_mul(self.x, rhs) as i64, fixed_mul(self.y, rhs) as i64)
    }
}

impl MulSpecImpl<i64> for &Point {
    open spec fn obeys_mul_spec() -> bool {
        true
    }

    /// Both products are quantities.
    open spec fn mul_req(self, rhs: i64) -> bool {
        &&& i64::MIN <= mul_floor(self.x as int, rhs as int) <= i64::MAX
        &&& i64::MIN <= mul_floor(self.y as int, rhs as int) <= i64::MAX
    }

    open spec fn mul_spec(self, rhs: i64) -> Point {
        Point {
            x: mul_floor(self.x as int, rhs as int) as i64,
            y: mul_floor(self.y as int, rhs as int) as i64,
        }
    }
}

} // verus!
