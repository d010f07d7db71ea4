//! Points of the sketch plane, positions in space and rays.
use vstd::prelude::*;
use crate::units::COORD_LIMIT;

verus! {

/// Whether `c` is a legal plane coordinate.
pub open spec fn coord_in_range(c: int) -> bool {
    -(COORD_LIMIT as int) <= c <= COORD_LIMIT as int
}

/// A point of the sketch plane, the horizontal plane of height zero.
///
/// `x` and `z` are ticks along the two horizontal axes. Both stay within
/// [`COORD_LIMIT`] of the origin, which [`Point::new`] checks.
#[derive(Clone, Copy, Debug, PartialEq, Eq, Structural)]
pub struct Point {
    x: i32,
    z: i32,
}

impl Point {
    #[verifier::type_invariant]
    pub closed spec fn in_range(self) -> bool {
        coord_in_range(self.x as int) && coord_in_range(self.z as int)
    }

    /// The coordinate along the first horizontal axis.
    pub closed spec fn spec_x(&self) -> i32 {
        self.x
    }

    /// The coordinate along the second horizontal axis.
    pub closed spec fn spec_z(&self) -> i32 {
        self.z
    }

    /// The point with the coordinates `x` and `z`, where both are in range.
    pub closed spec fn at(x: int, z: int) -> Point {
        Point { x: x as i32, z: z as i32 }
    }

    /// `Point::at(x, z)` has the coordinates `x` and `z`.
    pub proof fn lemma_at(x: int, z: int)
        requires
            coord_in_range(x),
            coord_in_range(z),
        ensures
            Point::at(x, z).x() == x,
            Point::at(x, z).z() == z,
            Point::at(x, z).in_range(),
    {
    }

    /// The point `(x, z)`, or `None` when a coordinate is beyond the limit.
    pub fn new(x: i32, z: i32) -> (r: Option<Point>)
        ensures
            r is Some <==> coord_in_range(x as int) && coord_in_range(z as int),
            r matches Some(p) ==> p == Point::at(x as int, z as int) && p.x() == x && p.z() == z,
    {
        if -COORD_LIMIT <= x && x <= COORD_LIMIT && -COORD_LIMIT <= z && z <= COORD_LIMIT {
            Some(Point { x, z })
        } else {
            None
        }
    }

    /// The origin of the plane.
    pub fn origin() -> (p: Point)
        ensures
            p.x() == 0,
            p.z() == 0,
    {
        Point { x: 0, z: 0 }
    }

    #[verifier::when_used_as_spec(spec_x)]
    pub fn x(&self) -> (r: i32)
        ensures
            r == self.x(),
            coord_in_range(r as int),
    {
        proof {
            use_type_invariant(self);
        }
        self.x
    }

    #[verifier::when_used_as_spec(spec_z)]
    pub fn z(&self) -> (r: i32)
        ensures
            r == self.z(),
            coord_in_range(r as int),
    {
        proof {
            use_type_invariant(self);
        }
        self.z
    }

    /// The point that has the `x` of `self` and the `z` of `other`.
    pub fn with_z_of(&self, other: &Point) -> (r: Point)
        ensures
            r.x() == self.x(),
            r.z() == other.z(),
    {
        proof {
            use_type_invariant(self);
            use_type_invariant(other);
        }
        Point { x: self.x, z: other.z }
    }

    /// The position in space of this point: the same `x` and `z`, at height zero.
    pub fn position(&self) -> (r: Position)
        ensures
            r == self.lift(0),
    {
        Position { x: self.x as i64, y: 0, z: self.z as i64 }
    }

    /// The position `height` ticks above this point.
    pub open spec fn lift(self, height: int) -> Position {
        Position { x: self.x() as i64, y: height as i64, z: self.z() as i64 }
    }

    /// The coordinates of a point in range are within the limit.
    pub proof fn lemma_in_range(self)
        requires
            self.in_range(),
        ensures
            coord_in_range(self.x() as int),
            coord_in_range(self.z() as int),
    {
    }

    /// Two points with the same coordinates are the same point.
    pub proof fn lemma_same_coordinates(self, other: Point)
        requires
            self.x() == other.x(),
            self.z() == other.z(),
        ensures
            self == other,
    {
    }
}

/// A position in space, in ticks. `y` is the height above the sketch plane.
#[derive(Clone, Copy, Debug, PartialEq, Eq, Structural)]
pub struct Position {
    pub x: i64,
    pub y: i64,
    pub z: i64,
}

/// A half-line in space: it starts at `origin` and runs along `direction`.
///
/// Only the ratio of the components of `direction` matters, not its length.
#[derive(Clone, Copy, Debug, PartialEq, Eq, Structural)]
pub struct Ray {
    pub origin: Position,
    pub direction: Position,
}

} // verus!
