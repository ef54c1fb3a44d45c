//! Coordinates, points and axes.
//!
//! Every coordinate and every ray parameter in this library is a rank: a
//! 64-bit integer that stands for a real number and is ordered as that number
//! is. The library compares, selects and stores ranks. It never does
//! arithmetic on them, so every statement it makes is a statement about order.

use vstd::prelude::*;

verus! {

/// One of the three coordinate axes.
#[derive(Debug, Clone, Copy, PartialEq, Eq, Structural)]
pub enum Axis {
    X,
    Y,
    Z,
}

impl Axis {
    /// The axis with the given number: 0 is X, 1 is Y, anything else is Z.
    pub open spec fn from_index(i: int) -> Axis {
        if i == 0 {
            Axis::X
        } else if i == 1 {
            Axis::Y
        } else {
            Axis::Z
        }
    }

    /// The number of this axis: 0, 1 or 2.
    pub open spec fn spec_index(self) -> int {
        match self {
            Axis::X => 0,
            Axis::Y => 1,
            Axis::Z => 2,
        }
    }

    /// The number of this axis: 0, 1 or 2.
    pub fn index(self) -> (r: usize)
        ensures
            r == self.spec_index(),
            r < 3,
    {
        match self {
            Axis::X => 0,
            Axis::Y => 1,
            Axis::Z => 2,
        }
    }
}

/// A point or a direction, by the ranks of its three coordinates.
#[derive(Debug, Clone, Copy, PartialEq, Eq, Structural)]
pub struct Point {
    pub x: i64,
    pub y: i64,
    pub z: i64,
}

impl Point {
    /// The coordinate along `axis`.
    pub open spec fn spec_get(self, axis: Axis) -> i64 {
        match axis {
            Axis::X => self.x,
            Axis::Y => self.y,
            Axis::Z => self.z,
        }
    }

    /// The point whose coordinates are the smaller of the two on each axis.
    pub open spec fn spec_lower(self, other: Point) -> Point {
        Point {
            x: if self.x <= other.x { self.x } else { other.x },
            y: if self.y <= other.y { self.y } else { other.y },
            z: if self.z <= other.z { self.z } else { other.z },
        }
    }

    /// The point whose coordinates are the larger of the two on each axis.
    pub open spec fn spec_upper(self, other: Point) -> Point {
        Point {
            x: if self.x >= other.x { self.x } else { other.x },
            y: if self.y >= other.y { self.y } else { other.y },
            z: if self.z >= other.z { self.z } else { other.z },
        }
    }

    /// Whether no coordinate of `self` exceeds the matching one of `other`.
    pub open spec fn le(self, other: Point) -> bool {
        self.x <= other.x && self.y <= other.y && self.z <= other.z
    }

    pub fn new(x: i64, y: i64, z: i64) -> (r: Point)
        ensures
            r == (Point { x, y, z }),
    {
        Point { x, y, z }
    }

    /// The coordinate along `axis`.
    #[verifier::when_used_as_spec(spec_get)]
    pub fn get(self, axis: Axis) -> (r: i64)
        ensures
            r == self.spec_get(axis),
    {
        match axis {
            Axis::X => self.x,
            Axis::Y => self.y,
            Axis::Z => self.z,
        }
    }

    /// The componentwise minimum of two points.
    #[verifier::when_used_as_spec(spec_lower)]
    pub fn lower(self, other: Point) -> (r: Point)
        ensures
            r == self.spec_lower(other),
    {
        Point {
            x: if self.x <= other.x { self.x } else { other.x },
            y: if self.y <= other.y { self.y } else { other.y },
            z: if self.z <= other.z { self.z } else { other.z },
        }
    }

    /// The componentwise maximum of two points.
    #[verifier::when_used_as_spec(spec_upper)]
    pub fn upper(self, other: Point) -> (r: Point)
        ensures
            r == self.spec_upper(other),
    {
        Point {
            x: if self.x >= other.x { self.x } else { other.x },
            y: if self.y >= other.y { self.y } else { other.y },
            z: if self.z >= other.z { self.z } else { other.z },
        }
    }
}

/// Whether `v` lies between `low` and `high`, the two included.
pub open spec fn spec_within(v: i64, low: i64, high: i64) -> bool {
    low <= v && v <= high
}

/// Whether `v` lies between `low` and `high`, the two included.
#[verifier::when_used_as_spec(spec_within)]
pub fn within(v: i64, low: i64, high: i64) -> (r: bool)
    ensures
        r == spec_within(v, low, high),
{
    !(v < low || v > high)
}

/// A free direction, by the ranks of its components.
pub type Vector = Point;

/// A colour, by the ranks of its red, green and blue parts.
pub type Color = Point;

/// Whether each component of `v` lies strictly between `low` and `high`.
/// With `low` the rank of a small negative number and `high` that of its
/// opposite, this says that `v` is too short to give a direction.
pub open spec fn spec_near_zero(v: &Vector, low: i64, high: i64) -> bool {
    &&& low < v.x < high
    &&& low < v.y < high
    &&& low < v.z < high
}

/// Whether each component of `v` lies strictly between `low` and `high`.
#[verifier::when_used_as_spec(spec_near_zero)]
pub fn near_zero(v: &Vector, low: i64, high: i64) -> (r: bool)
    ensures
        r == spec_near_zero(v, low, high),
{
    low < v.x && v.x < high && low < v.y && v.y < high && low < v.z && v.z < high
}

} // verus!
