//! Squared distances between a point of the plane and the outline of a shape.
//!
//! A squared distance is in general a fraction, or not even that: the gap
//! between a point and a circle involves a square root. Three questions about
//! it are answered here, the first two without any rounding. *Is the gap below
//! a tolerance?* *Which of two gaps is the smaller?* And, for display, *how
//! large is the gap?*, in whole squared ticks, rounded up.
use vstd::prelude::*;
use crate::point::Point;
use crate::arith::{
    ceil_div, floor_sqrt, isqrt, lemma_product_bound, lemma_square_monotonic, product_less,
};

verus! {

/// Squared distance between `a` and `b`.
pub open spec fn dist_sq(a: Point, b: Point) -> int {
    (a.x() - b.x()) * (a.x() - b.x()) + (a.z() - b.z()) * (a.z() - b.z())
}

/// Scalar product of the vector from `a` to `p` with the vector from `a` to `b`.
pub open spec fn dot(p: Point, a: Point, b: Point) -> int {
    (p.x() - a.x()) * (b.x() - a.x()) + (p.z() - a.z()) * (b.z() - a.z())
}

/// Cross product of the vector from `a` to `p` with the vector from `a` to `b`.
pub open spec fn cross(p: Point, a: Point, b: Point) -> int {
    (p.x() - a.x()) * (b.z() - a.z()) - (p.z() - a.z()) * (b.x() - a.x())
}

/// Whether the point of the segment from `a` to `b` nearest to `p` is `a`.
///
/// That is so when the segment is a single point, or when the foot of the
/// perpendicular from `p` lies at or before `a`.
pub open spec fn nearest_is_first(p: Point, a: Point, b: Point) -> bool {
    dist_sq(a, b) == 0 || dot(p, a, b) <= 0
}

/// Whether the point of the segment from `a` to `b` nearest to `p` is `b`.
pub open spec fn nearest_is_second(p: Point, a: Point, b: Point) -> bool {
    !nearest_is_first(p, a, b) && dot(p, a, b) >= dist_sq(a, b)
}

/// Numerator of the squared distance from `p` to the segment from `a` to `b`.
///
/// Next to an end of the segment this is the squared distance to that end.
/// Between the ends it is the squared distance to the line through `a` and
/// `b`, which is `cross² / |ab|²`.
pub open spec fn segment_gap_num(p: Point, a: Point, b: Point) -> int {
    if nearest_is_first(p, a, b) {
        dist_sq(p, a)
    } else if nearest_is_second(p, a, b) {
        dist_sq(p, b)
    } else {
        cross(p, a, b) * cross(p, a, b)
    }
}

/// Denominator of the squared distance from `p` to the segment from `a` to `b`.
pub open spec fn segment_gap_den(p: Point, a: Point, b: Point) -> int {
    if nearest_is_first(p, a, b) || nearest_is_second(p, a, b) {
        1
    } else {
        dist_sq(a, b)
    }
}

/// Whether `p` is closer than `tol` to the segment from `a` to `b`.
pub open spec fn segment_hits(p: Point, a: Point, b: Point, tol: int) -> bool {
    segment_gap_num(p, a, b) < tol * tol * segment_gap_den(p, a, b)
}

/// Squared distance from `p` to the segment from `a` to `b`, rounded up.
pub open spec fn segment_residual(p: Point, a: Point, b: Point) -> int {
    ceil_div(segment_gap_num(p, a, b), segment_gap_den(p, a, b))
}

/// Product of two coordinate differences.
fn mul_diff(x: i128, y: i128) -> (r: i128)
    requires
        -0x4000_0000 <= x <= 0x4000_0000,
        -0x4000_0000 <= y <= 0x4000_0000,
    ensures
        r == x * y,
        -0x1000_0000_0000_0000 <= r <= 0x1000_0000_0000_0000,
{
    proof {
        lemma_product_bound(x as int, y as int, 0x4000_0000, 0x4000_0000);
    }
    x * y
}

/// Difference of two plane coordinates.
fn diff(u: i32, v: i32) -> (r: i128)
    requires
        crate::point::coord_in_range(u as int),
        crate::point::coord_in_range(v as int),
    ensures
        r == u - v,
        -0x4000_0000 <= r <= 0x4000_0000,
{
    u as i128 - v as i128
}

/// Squared distance between `a` and `b`, in squared ticks.
pub fn distance_sq(a: Point, b: Point) -> (r: u64)
    ensures
        r == dist_sq(a, b),
        r <= 0x2000_0000_0000_0000,
{
    let dx: i128 = diff(a.x(), b.x());
    let dz: i128 = diff(a.z(), b.z());
    let xx: i128 = mul_diff(dx, dx);
    let zz: i128 = mul_diff(dz, dz);
    assert(xx >= 0 && zz >= 0) by (nonlinear_arith)
        requires
            xx == dx * dx,
            zz == dz * dz,
    ;
    (xx + zz) as u64
}

/// The squared distance from `p` to the segment from `a` to `b`, as a fraction.
fn segment_gap(p: Point, a: Point, b: Point) -> (g: (u128, u128))
    ensures
        g.0 == segment_gap_num(p, a, b),
        g.1 == segment_gap_den(p, a, b),
        g.0 <= 0x400_0000_0000_0000_0000_0000_0000_0000,
        1 <= g.1 <= 0x2000_0000_0000_0000,
{
    let abx: i128 = diff(b.x(), a.x());
    let abz: i128 = diff(b.z(), a.z());
    let apx: i128 = diff(p.x(), a.x());
    let apz: i128 = diff(p.z(), a.z());
    let len: u64 = distance_sq(a, b);
    let d: i128 = mul_diff(apx, abx) + mul_diff(apz, abz);
    if len == 0 || d <= 0 {
        (distance_sq(p, a) as u128, 1)
    } else if d >= len as i128 {
        (distance_sq(p, b) as u128, 1)
    } else {
        let c: i128 = mul_diff(apx, abz) - mul_diff(apz, abx);
        proof {
            lemma_product_bound(c as int, c as int, 0x2000_0000_0000_0000, 0x2000_0000_0000_0000);
            assert(c * c >= 0) by (nonlinear_arith);
        }
        ((c * c) as u128, len as u128)
    }
}

/// The squared distance from `p` to the segment from `a` to `b`, in squared
/// ticks, rounded up.
///
/// Beside the segment the distance is measured to the line through `a` and
/// `b`; before `a` and after `b` it is measured to that end.
pub fn point_line_segment_distance_sq(p: Point, a: Point, b: Point) -> (r: u128)
    ensures
        r == segment_residual(p, a, b),
{
    let g = segment_gap(p, a, b);
    (g.0 + g.1 - 1) / g.1
}

/// Whether `p` is closer than `tol` ticks to the segment from `a` to `b`.
pub fn segment_within(p: Point, a: Point, b: Point, tol: u32) -> (r: bool)
    ensures
        r == segment_hits(p, a, b, tol as int),
{
    let g = segment_gap(p, a, b);
    let t: u128 = tol as u128;
    proof {
        lemma_product_bound(t as int, t as int, 0xffff_ffff, 0xffff_ffff);
        lemma_product_bound(t * t, g.1 as int, 0xffff_fffe_0000_0001, 0x2000_0000_0000_0000);
        assert(t * t >= 0) by (nonlinear_arith);
        assert(t * t * g.1 >= 0) by (nonlinear_arith)
            requires
                t * t >= 0,
                g.1 >= 1,
        ;
    }
    g.0 < t * t * g.1
}

/// Whether `p` is closer than `tol` to the circle about `center` whose radius
/// has the square `radius_sq`.
///
/// With `d` the squared distance from `p` to the centre and `r` the squared
/// radius, the gap between `p` and the circle is `(√d - √r)²`, which is
/// `d + r - √(4dr)`. It is below `tol²` when `d + r - tol²` is below `√(4dr)`.
pub open spec fn circle_hits(p: Point, center: Point, radius_sq: int, tol: int) -> bool {
    let k = dist_sq(p, center) + radius_sq - tol * tol;
    k < 0 || k * k < 4 * dist_sq(p, center) * radius_sq
}

/// Squared gap between `p` and the circle about `center` whose radius has the
/// square `radius_sq`, rounded up: `d + r - √(4dr)` with the root rounded down.
pub open spec fn circle_residual(p: Point, center: Point, radius_sq: int) -> int {
    dist_sq(p, center) + radius_sq - floor_sqrt((4 * dist_sq(p, center) * radius_sq) as nat)
}

/// Four times the product of a squared distance and a squared radius.
fn four_times_product(d: u64, radius_sq: u64) -> (q: u128)
    requires
        d <= 0x2000_0000_0000_0000,
    ensures
        q == 4 * d * radius_sq,
        q < 0x8000_0000_0000_0000_0000_0000_0000_0000,
{
    let d4: u128 = 4 * (d as u128);
    proof {
        lemma_product_bound(d4 as int, radius_sq as int, 0x8000_0000_0000_0000, 0xffff_ffff_ffff_ffff);
        assert(d4 * radius_sq >= 0) by (nonlinear_arith)
            requires
                d4 >= 0,
                radius_sq >= 0,
        ;
    }
    d4 * (radius_sq as u128)
}

/// The rounded-down root of `4dr` is at most `d + r`.
proof fn lemma_root_below_sum(d: int, r: int, s: int)
    requires
        0 <= d,
        0 <= r,
        0 <= s,
        s * s <= 4 * d * r,
    ensures
        s <= d + r,
{
    assert((d + r) * (d + r) >= 4 * d * r) by (nonlinear_arith)
        requires
            0 <= d,
            0 <= r,
    ;
    if s > d + r {
        lemma_square_monotonic(d + r + 1, s);
        assert((d + r + 1) * (d + r + 1) > (d + r) * (d + r)) by (nonlinear_arith)
            requires
                0 <= d + r,
        ;
    }
}

/// The squared gap between `p` and the circle about `center` whose radius has
/// the square `radius_sq`, in squared ticks, rounded up.
///
/// The gap is measured to the circumference, not to the disc: it is zero
/// exactly when `p` lies on the circle.
pub fn circle_distance_sq(p: Point, center: Point, radius_sq: u64) -> (r: u128)
    ensures
        r == circle_residual(p, center, radius_sq as int),
{
    let d: u64 = distance_sq(p, center);
    let q: u128 = four_times_product(d, radius_sq);
    let s: u64 = isqrt(q);
    proof {
        lemma_root_below_sum(d as int, radius_sq as int, s as int);
    }
    d as u128 + radius_sq as u128 - s as u128
}

/// Whether `p` is closer than `tol` ticks to the circle about `center` whose
/// radius has the square `radius_sq`.
pub fn circle_within(p: Point, center: Point, radius_sq: u64, tol: u32) -> (r: bool)
    ensures
        r == circle_hits(p, center, radius_sq as int, tol as int),
{
    let d: u64 = distance_sq(p, center);
    let q: u128 = four_times_product(d, radius_sq);
    let t: i128 = tol as i128;
    proof {
        lemma_product_bound(t as int, t as int, 0xffff_ffff, 0xffff_ffff);
    }
    let k: i128 = d as i128 + radius_sq as i128 - t * t;
    if k < 0 {
        true
    } else if k >= 0x1_0000_0000_0000_0000 {
        proof {
            lemma_square_monotonic(0x1_0000_0000_0000_0000, k as int);
        }
        false
    } else {
        let ku: u128 = k as u128;
        proof {
            lemma_product_bound(ku as int, ku as int, 0xffff_ffff_ffff_ffff, 0xffff_ffff_ffff_ffff);
        }
        ku * ku < q
    }
}

/// Whether `u` and `v` differ by less than `tol`.
pub open spec fn near(u: int, v: int, tol: int) -> bool {
    -tol < u - v < tol
}

/// Whether `u` lies between `a` and `b`, ends included, whichever is larger.
pub open spec fn between(u: int, a: int, b: int) -> bool {
    (a <= u <= b) || (b <= u <= a)
}

/// Whether `p` lies in the axis-aligned box with opposite corners `p1` and `p2`.
pub open spec fn in_box(p: Point, p1: Point, p2: Point) -> bool {
    between(p.x() as int, p1.x() as int, p2.x() as int) && between(
        p.z() as int,
        p1.z() as int,
        p2.z() as int,
    )
}

/// Whether `p` is closer than `tol` to one of the four lines that carry the
/// sides of the rectangle with opposite corners `p1` and `p2`.
///
/// The lines are not cut off at the corners.
pub open spec fn near_border(p: Point, p1: Point, p2: Point, tol: int) -> bool {
    near(p.x() as int, p1.x() as int, tol) || near(p.x() as int, p2.x() as int, tol) || near(
        p.z() as int,
        p1.z() as int,
        tol,
    ) || near(p.z() as int, p2.z() as int, tol)
}

/// Whether a click at `p` picks the rectangle with opposite corners `p1` and
/// `p2`: `p` is inside it, or near one of the lines through its sides.
pub open spec fn rectangle_hits(p: Point, p1: Point, p2: Point, tol: int) -> bool {
    in_box(p, p1, p2) || near_border(p, p1, p2, tol)
}

/// Whether `u` and `v` differ by less than `tol`.
fn coords_near(u: i32, v: i32, tol: u32) -> (r: bool)
    ensures
        r == near(u as int, v as int, tol as int),
{
    let d: i64 = u as i64 - v as i64;
    -(tol as i64) < d && d < tol as i64
}

/// Whether `u` lies between `a` and `b`, ends included.
fn coord_between(u: i32, a: i32, b: i32) -> (r: bool)
    ensures
        r == between(u as int, a as int, b as int),
{
    (a <= u && u <= b) || (b <= u && u <= a)
}

/// Whether a click at `p` picks the rectangle with opposite corners `p1` and
/// `p2`, with a tolerance of `tol` ticks.
///
/// The rectangle is picked from anywhere inside it, and from within `tol` of
/// any of the four lines through its sides, also beyond its corners.
pub fn rectangle_within(p: Point, p1: Point, p2: Point, tol: u32) -> (r: bool)
    ensures
        r == rectangle_hits(p, p1, p2, tol as int),
{
    let inside: bool = coord_between(p.x(), p1.x(), p2.x()) && coord_between(p.z(), p1.z(), p2.z());
    let border: bool = coords_near(p.x(), p1.x(), tol) || coords_near(p.x(), p2.x(), tol)
        || coords_near(p.z(), p1.z(), tol) || coords_near(p.z(), p2.z(), tol);
    inside || border
}

/// The squared gap between a point and a shape, exactly.
pub enum Gap {
    /// The fraction `num / den`, where `num >= 0` and `den >= 1`.
    Fraction { num: int, den: int },
    /// The gap `(√dist_sq - √radius_sq)²` between a circle and a point off
    /// it: `dist_sq` is the squared distance of the point from the centre,
    /// `radius_sq` the squared radius, and the two differ.
    Ring { dist_sq: int, radius_sq: int },
}

/// Whether `√x - √y > k`, for `x >= 0` and `y >= 0`, stated without the
/// roots.
///
/// With `m = x + y - k²`, the square of `√x - √y` exceeds `k²` exactly when
/// `m > 2√(xy)`, that is when `m > 0` and `m² > 4xy`. For `k >= 0` the
/// difference must also be positive, so `x > y`. For `k < 0` the claim fails
/// only if `√y - √x >= -k`, that is if `y > x` and `m >= 0` and `m² >= 4xy`.
pub open spec fn root_difference_exceeds(x: int, y: int, k: int) -> bool {
    let m = x + y - k * k;
    if k >= 0 {
        x > y && m > 0 && m * m > 4 * x * y
    } else {
        y <= x || m < 0 || m * m < 4 * x * y
    }
}

impl Gap {
    /// Whether the gap is made of numbers a gap can be made of.
    pub open spec fn wf(self) -> bool {
        match self {
            Gap::Fraction { num, den } => num >= 0 && den >= 1,
            Gap::Ring { dist_sq, radius_sq } => dist_sq >= 0 && radius_sq >= 0 && dist_sq
                != radius_sq,
        }
    }

    /// Whether the gap is zero: the point lies on the outline.
    pub open spec fn is_zero(self) -> bool {
        self matches Gap::Fraction { num, .. } && num == 0
    }

    /// Whether this gap is smaller than `other`, exactly.
    ///
    /// - Two fractions are compared across: `n₁/m₁ < n₂/m₂` when
    ///   `n₁·m₂ < n₂·m₁`.
    /// - A ring gap is `d + r - √(4dr)`. A fraction `n/m` is below it when
    ///   `m·√(4dr) < m·(d + r) - n`, that is when the right side is positive
    ///   and its square exceeds `m²·4dr`. It is above the ring gap when the
    ///   right side is negative or its square is below `m²·4dr`.
    /// - Two ring gaps `d₁ + r₁ - √(4d₁r₁)` and `d₂ + r₂ - √(4d₂r₂)`: the
    ///   first is the smaller when `√(4d₁r₁) - √(4d₂r₂)` exceeds
    ///   `(d₁ + r₁) - (d₂ + r₂)`.
    pub open spec fn less(self, other: Gap) -> bool {
        match (self, other) {
            (Gap::Fraction { num: n1, den: m1 }, Gap::Fraction { num: n2, den: m2 }) => n1 * m2
                < n2 * m1,
            (Gap::Fraction { num, den }, Gap::Ring { dist_sq, radius_sq }) => {
                let x = den * (dist_sq + radius_sq) - num;
                x > 0 && den * den * (4 * dist_sq * radius_sq) < x * x
            },
            (Gap::Ring { dist_sq, radius_sq }, Gap::Fraction { num, den }) => {
                let x = den * (dist_sq + radius_sq) - num;
                x < 0 || x * x < den * den * (4 * dist_sq * radius_sq)
            },
            (Gap::Ring { dist_sq: d1, radius_sq: r1 }, Gap::Ring { dist_sq: d2, radius_sq: r2 }) => {
                root_difference_exceeds(4 * d1 * r1, 4 * d2 * r2, (d1 + r1) - (d2 + r2))
            },
        }
    }
}

impl Gap {
    /// No gap is smaller than another that is smaller than it.
    pub proof fn lemma_less_asymmetric(self, other: Gap)
        ensures
            !(self.less(other) && other.less(self)),
    {
        if let (Gap::Ring { dist_sq: d1, radius_sq: r1 }, Gap::Ring { dist_sq: d2, radius_sq: r2 }) = (
            self,
            other,
        ) {
            let k = (d1 + r1) - (d2 + r2);
            let x = 4 * d1 * r1;
            let y = 4 * d2 * r2;
            assert((-k) * (-k) == k * k) by (nonlinear_arith);
            assert(4 * x * y == 4 * y * x) by (nonlinear_arith);
            assert((d2 + r2) - (d1 + r1) == -k);
        }
    }

    /// Nothing is smaller than zero, and zero is smaller than everything
    /// else.
    pub proof fn lemma_zero_is_least(self, other: Gap)
        requires
            self.wf(),
            other.wf(),
            self.is_zero(),
        ensures
            !other.less(self),
            !other.is_zero() ==> self.less(other),
    {
        let den = self->Fraction_den;
        match other {
            Gap::Fraction { num, den: m } => {
                assert(num * den >= 0) by (nonlinear_arith)
                    requires
                        num >= 0,
                        den >= 1,
                ;
                assert(0 * m == 0);
                if num > 0 {
                    assert(num * den > 0) by (nonlinear_arith)
                        requires
                            num > 0,
                            den >= 1,
                    ;
                }
            },
            Gap::Ring { dist_sq: d, radius_sq: r } => {
                let x = den * (d + r) - 0;
                assert(x > 0 && x * x == den * den * ((d + r) * (d + r))) by (nonlinear_arith)
                    requires
                        x == den * (d + r),
                        den >= 1,
                        d + r > 0,
                ;
                assert((d + r) * (d + r) - 4 * d * r == (d - r) * (d - r)) by (nonlinear_arith);
                assert((d - r) * (d - r) > 0) by (nonlinear_arith)
                    requires
                        d != r,
                ;
                assert(den * den * (4 * d * r) < den * den * ((d + r) * (d + r))) by (nonlinear_arith)
                    requires
                        den >= 1,
                        4 * d * r < (d + r) * (d + r),
                ;
            },
        }
    }
}

/// Whether `s` is the square root of `x`.
pub open spec fn is_root(s: real, x: int) -> bool {
    s >= 0real && s * s == x as real
}

/// Whether `s` is the root that the gap `g` involves: for the ring gap of
/// `d` and `r`, the root of `4dr`. A fraction involves no root.
pub open spec fn rooted(g: Gap, s: real) -> bool {
    g matches Gap::Ring { dist_sq, radius_sq } ==> is_root(s, 4 * dist_sq * radius_sq)
}

/// The gap `g` as a number, where `s` is the root that it involves.
pub open spec fn gap_value(g: Gap, s: real) -> real {
    match g {
        Gap::Fraction { num, den } => (num as real) / (den as real),
        Gap::Ring { dist_sq, radius_sq } => ((dist_sq + radius_sq) as real) - s,
    }
}

/// The exact squared gap between `p` and the segment from `a` to `b`.
pub open spec fn segment_gap_exact(p: Point, a: Point, b: Point) -> Gap {
    Gap::Fraction { num: segment_gap_num(p, a, b), den: segment_gap_den(p, a, b) }
}

/// The exact squared gap between `p` and the circle about `center` whose
/// radius has the square `radius_sq`: zero on the circle, a ring gap off it.
pub open spec fn circle_gap_exact(p: Point, center: Point, radius_sq: int) -> Gap {
    if dist_sq(p, center) == radius_sq {
        Gap::Fraction { num: 0, den: 1 }
    } else {
        Gap::Ring { dist_sq: dist_sq(p, center), radius_sq }
    }
}

/// A gap as the machine holds it.
#[derive(Clone, Copy)]
pub enum MeasuredGap {
    Fraction { num: u128, den: u128 },
    Ring { dist_sq: u64, radius_sq: u64 },
}

impl View for MeasuredGap {
    type V = Gap;

    open spec fn view(&self) -> Gap {
        match *self {
            MeasuredGap::Fraction { num, den } => Gap::Fraction { num: num as int, den: den as int },
            MeasuredGap::Ring { dist_sq, radius_sq } => Gap::Ring {
                dist_sq: dist_sq as int,
                radius_sq: radius_sq as int,
            },
        }
    }
}

impl MeasuredGap {
    /// Whether the gap is one that a shape and a point of the plane can have:
    /// then every number in the comparison of two gaps fits the machine.
    pub open spec fn in_reach(self) -> bool {
        match self {
            MeasuredGap::Fraction { num, den } => num <= 0x400_0000_0000_0000_0000_0000_0000_0000
                && 1 <= den <= 0x2000_0000_0000_0000,
            MeasuredGap::Ring { dist_sq, radius_sq } => dist_sq <= 0x2000_0000_0000_0000
                && dist_sq != radius_sq,
        }
    }

    /// The exact squared gap between `p` and the segment from `a` to `b`.
    pub fn of_segment(p: Point, a: Point, b: Point) -> (g: MeasuredGap)
        ensures
            g@ == segment_gap_exact(p, a, b),
            g.in_reach(),
            g@.wf(),
    {
        let g = segment_gap(p, a, b);
        MeasuredGap::Fraction { num: g.0, den: g.1 }
    }

    /// The exact squared gap between `p` and the circle about `center` whose
    /// radius has the square `radius_sq`.
    pub fn of_circle(p: Point, center: Point, radius_sq: u64) -> (g: MeasuredGap)
        ensures
            g@ == circle_gap_exact(p, center, radius_sq as int),
            g.in_reach(),
            g@.wf(),
    {
        let d: u64 = distance_sq(p, center);
        if d == radius_sq {
            MeasuredGap::Fraction { num: 0, den: 1 }
        } else {
            MeasuredGap::Ring { dist_sq: d, radius_sq }
        }
    }

    /// The gap zero.
    pub fn zero() -> (g: MeasuredGap)
        ensures
            g@ == (Gap::Fraction { num: 0, den: 1 }),
            g.in_reach(),
            g@.wf(),
    {
        MeasuredGap::Fraction { num: 0, den: 1 }
    }

    /// Whether this gap is smaller than `other`, exactly.
    pub(crate) fn less(&self, other: &MeasuredGap) -> (r: bool)
        requires
            self.in_reach(),
            other.in_reach(),
        ensures
            r == self@.less(other@),
    {
        match (*self, *other) {
            (MeasuredGap::Fraction { num: n1, den: m1 }, MeasuredGap::Fraction { num: n2, den: m2 }) => {
                product_less(n1, m2, n2, m1)
            },
            (MeasuredGap::Fraction { num, den }, MeasuredGap::Ring { dist_sq, radius_sq }) => {
                let span: u128 = span_of(den, dist_sq, radius_sq);
                if span <= num {
                    false
                } else {
                    let x: u128 = span - num;
                    product_less(square_of(den), four_times_product(dist_sq, radius_sq), x, x)
                }
            },
            (MeasuredGap::Ring { dist_sq, radius_sq }, MeasuredGap::Fraction { num, den }) => {
                let span: u128 = span_of(den, dist_sq, radius_sq);
                if span < num {
                    proof {
                        assert(den * (dist_sq + radius_sq) - num < 0);
                    }
                    true
                } else {
                    let x: u128 = span - num;
                    product_less(x, x, square_of(den), four_times_product(dist_sq, radius_sq))
                }
            },
            (MeasuredGap::Ring { dist_sq: d1, radius_sq: r1 }, MeasuredGap::Ring { dist_sq: d2, radius_sq: r2 }) => {
                ring_less(d1, r1, d2, r2)
            },
        }
    }
}

/// `den` times the sum of a squared distance and a squared radius.
fn span_of(den: u128, dist_sq: u64, radius_sq: u64) -> (r: u128)
    requires
        den <= 0x2000_0000_0000_0000,
        dist_sq <= 0x2000_0000_0000_0000,
    ensures
        r == den * (dist_sq + radius_sq),
{
    let sum: u128 = dist_sq as u128 + radius_sq as u128;
    proof {
        lemma_product_bound(den as int, sum as int, 0x2000_0000_0000_0000, 0x2_0000_0000_0000_0000);
        assert(den * sum >= 0) by (nonlinear_arith)
            requires
                den >= 0,
                sum >= 0,
        ;
    }
    den * sum
}

/// The square of a denominator.
fn square_of(den: u128) -> (r: u128)
    requires
        den <= 0x2000_0000_0000_0000,
    ensures
        r == den * den,
{
    proof {
        lemma_product_bound(den as int, den as int, 0x2000_0000_0000_0000, 0x2000_0000_0000_0000);
    }
    den * den
}

/// Whether the ring gap of `(d1, r1)` is smaller than that of `(d2, r2)`.
fn ring_less(d1: u64, r1: u64, d2: u64, r2: u64) -> (r: bool)
    requires
        d1 <= 0x2000_0000_0000_0000,
        d2 <= 0x2000_0000_0000_0000,
    ensures
        r == root_difference_exceeds(4 * d1 * r1, 4 * d2 * r2, (d1 + r1) - (d2 + r2)),
{
    let x: u128 = four_times_product(d1, r1);
    let y: u128 = four_times_product(d2, r2);
    let a1: u128 = d1 as u128 + r1 as u128;
    let a2: u128 = d2 as u128 + r2 as u128;
    let rising: bool = a1 >= a2;
    let k: u128 = if rising {
        a1 - a2
    } else {
        a2 - a1
    };
    let ghost ki: int = (d1 + r1) - (d2 + r2);
    assert(ki * ki == k * k) by (nonlinear_arith)
        requires
            ki == k || ki == -k,
    ;
    let sum: u128 = x + y;
    if k >= 0x1_0000_0000_0000_0000 {
        proof {
            lemma_square_monotonic(0x1_0000_0000_0000_0000, k as int);
        }
        !rising
    } else {
        proof {
            lemma_product_bound(k as int, k as int, 0xffff_ffff_ffff_ffff, 0xffff_ffff_ffff_ffff);
        }
        let kk: u128 = k * k;
        proof {
            assert((2 * x) * (2 * y) == 4 * x * y) by (nonlinear_arith);
        }
        if rising {
            if x > y && sum > kk {
                let m: u128 = sum - kk;
                product_less(2 * x, 2 * y, m, m)
            } else {
                false
            }
        } else {
            if y <= x || sum < kk {
                true
            } else {
                let m: u128 = sum - kk;
                product_less(m, m, 2 * x, 2 * y)
            }
        }
    }
}

} // verus!
