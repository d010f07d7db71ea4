//! The shapes of a sketch and the rule that builds one from two clicks.
use vstd::prelude::*;
use crate::point::Point;
use crate::geometry::{
    circle_distance_sq, circle_gap_exact, circle_hits, circle_residual, circle_within, dist_sq,
    distance_sq, point_line_segment_distance_sq, rectangle_hits, rectangle_within,
    segment_gap_exact, segment_hits, segment_residual, segment_within, Gap, MeasuredGap,
};

verus! {

/// The tool that decides what a click on the plane does.
#[derive(Clone, Copy, Debug, PartialEq, Eq, Structural)]
pub enum Tool {
    /// Two clicks draw a line segment between them.
    Line,
    /// Two clicks draw a circle: its centre, then a point on it.
    Circle,
    /// Two clicks draw a rectangle: two opposite corners.
    Rectangle,
    /// One click picks the nearest shape.
    Select,
}

impl Default for Tool {
    fn default() -> (t: Tool)
        ensures
            t == Tool::Line,
    {
        Tool::Line
    }
}

/// A shape drawn on the sketch plane.
#[derive(Clone, Copy, Debug, PartialEq, Eq, Structural)]
pub enum Primitive {
    /// The segment from `p1` to `p2`.
    Line { p1: Point, p2: Point },
    /// The circle about `center` whose radius has the square `radius_sq`.
    ///
    /// Keeping the square keeps the radius exact: the distance between two
    /// points of the grid is the root of a whole number, seldom a whole number.
    Circle { center: Point, radius_sq: u64 },
    /// The rectangle with sides along the axes and opposite corners `p1`, `p2`.
    Rectangle { p1: Point, p2: Point },
}

/// The shape that `tool` makes of a first click at `a` and a second at `b`.
pub open spec fn construct(tool: Tool, a: Point, b: Point) -> Option<Primitive> {
    match tool {
        Tool::Line => Some(Primitive::Line { p1: a, p2: b }),
        Tool::Circle => Some(Primitive::Circle { center: a, radius_sq: dist_sq(a, b) as u64 }),
        Tool::Rectangle => Some(Primitive::Rectangle { p1: a, p2: b }),
        Tool::Select => None,
    }
}

impl Primitive {
    /// Whether a click at `p` with tolerance `tol` picks this shape.
    pub open spec fn hits(self, p: Point, tol: int) -> bool {
        match self {
            Primitive::Line { p1, p2 } => segment_hits(p, p1, p2, tol),
            Primitive::Circle { center, radius_sq } => circle_hits(p, center, radius_sq as int, tol),
            Primitive::Rectangle { p1, p2 } => rectangle_hits(p, p1, p2, tol),
        }
    }

    /// How far `p` is from this shape, as the selector counts it, exactly.
    ///
    /// For a line and a circle this is the squared distance to the outline.
    /// A rectangle always counts as touched: its gap is zero.
    pub open spec fn gap(self, p: Point) -> Gap {
        match self {
            Primitive::Line { p1, p2 } => segment_gap_exact(p, p1, p2),
            Primitive::Circle { center, radius_sq } => circle_gap_exact(p, center, radius_sq as int),
            Primitive::Rectangle { .. } => Gap::Fraction { num: 0, den: 1 },
        }
    }

    /// The gap between `p` and this shape in whole squared ticks, rounded up,
    /// for display.
    pub open spec fn residual(self, p: Point) -> int {
        match self {
            Primitive::Line { p1, p2 } => segment_residual(p, p1, p2),
            Primitive::Circle { center, radius_sq } => circle_residual(p, center, radius_sq as int),
            Primitive::Rectangle { .. } => 0,
        }
    }

    /// The place of this kind of shape when two shapes are equally near:
    /// lines come before circles, circles before rectangles.
    pub open spec fn rank(self) -> int {
        match self {
            Primitive::Line { .. } => 0,
            Primitive::Circle { .. } => 1,
            Primitive::Rectangle { .. } => 2,
        }
    }

    /// The shape that `tool` makes of a first click at `a` and a second at `b`.
    ///
    /// A line runs from `a` to `b`. A circle has its centre at `a` and passes
    /// through `b`. A rectangle has `a` and `b` as opposite corners. Two equal
    /// clicks give a degenerate shape, which is accepted. The selection tool
    /// draws nothing.
    pub fn construct(tool: Tool, a: Point, b: Point) -> (r: Option<Primitive>)
        ensures
            r == construct(tool, a, b),
            tool != Tool::Select ==> r is Some,
            r matches Some(Primitive::Circle { radius_sq, .. }) ==> radius_sq == dist_sq(a, b),
    {
        match tool {
            Tool::Line => Some(Primitive::Line { p1: a, p2: b }),
            Tool::Circle => Some(Primitive::Circle { center: a, radius_sq: distance_sq(a, b) }),
            Tool::Rectangle => Some(Primitive::Rectangle { p1: a, p2: b }),
            Tool::Select => None,
        }
    }

    /// Whether a click at `p` picks this shape, with a tolerance of `tol` ticks.
    pub fn hit_by(&self, p: Point, tol: u32) -> (r: bool)
        ensures
            r == self.hits(p, tol as int),
    {
        match *self {
            Primitive::Line { p1, p2 } => segment_within(p, p1, p2, tol),
            Primitive::Circle { center, radius_sq } => circle_within(p, center, radius_sq, tol),
            Primitive::Rectangle { p1, p2 } => rectangle_within(p, p1, p2, tol),
        }
    }

    /// The exact gap between `p` and this shape.
    pub fn measured_gap(&self, p: Point) -> (g: MeasuredGap)
        ensures
            g@ == self.gap(p),
            g.in_reach(),
            g@.wf(),
    {
        match *self {
            Primitive::Line { p1, p2 } => MeasuredGap::of_segment(p, p1, p2),
            Primitive::Circle { center, radius_sq } => MeasuredGap::of_circle(p, center, radius_sq),
            Primitive::Rectangle { .. } => MeasuredGap::zero(),
        }
    }

    /// Whether `p` is nearer to this shape than to `other`, exactly: no
    /// rounding is made, so of two gaps that differ the smaller is found
    /// however little they differ.
    pub fn nearer_than(&self, other: &Primitive, p: Point) -> (r: bool)
        ensures
            r == self.gap(p).less(other.gap(p)),
    {
        let mine: MeasuredGap = self.measured_gap(p);
        let theirs: MeasuredGap = other.measured_gap(p);
        mine.less(&theirs)
    }

    /// Whether `p` lies on this shape, as the selector counts it: the gap is
    /// zero.
    pub fn touched_at(&self, p: Point) -> (r: bool)
        ensures
            r == self.gap(p).is_zero(),
    {
        match self.measured_gap(p) {
            MeasuredGap::Fraction { num, .. } => num == 0,
            MeasuredGap::Ring { .. } => false,
        }
    }

    /// The gap between `p` and this shape in whole squared ticks, rounded up,
    /// for display.
    pub fn distance_sq_to(&self, p: Point) -> (r: u128)
        ensures
            r == self.residual(p),
    {
        match *self {
            Primitive::Line { p1, p2 } => point_line_segment_distance_sq(p, p1, p2),
            Primitive::Circle { center, radius_sq } => circle_distance_sq(p, center, radius_sq),
            Primitive::Rectangle { .. } => 0,
        }
    }

    /// The place of this kind of shape when two shapes are equally near.
    pub fn kind_rank(&self) -> (r: u8)
        ensures
            r == self.rank(),
    {
        match *self {
            Primitive::Line { .. } => 0,
            Primitive::Circle { .. } => 1,
            Primitive::Rectangle { .. } => 2,
        }
    }
}

/// The four corners of the rectangle with opposite corners `p1` and `p2`, in
/// the order in which its outline is drawn: `p1`, the corner beside it along
/// `z`, `p2`, and the corner beside `p1` along `x`.
pub fn rectangle_corners(p1: Point, p2: Point) -> (r: [Point; 4])
    ensures
        r[0] == p1,
        r[1].x() == p1.x() && r[1].z() == p2.z(),
        r[2] == p2,
        r[3].x() == p2.x() && r[3].z() == p1.z(),
{
    [p1, p1.with_z_of(&p2), p2, p2.with_z_of(&p1)]
}

} // verus!
