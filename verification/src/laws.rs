//! What holds of the engine as a whole: facts that relate several of its
//! functions, each proved from the definitions the contracts are stated in.
use vstd::prelude::*;
use vstd::arithmetic::div_mod::{lemma_basic_div, lemma_fundamental_div_mod, lemma_mod_pos_bound};
use crate::arith::{floor_sqrt, is_floor_sqrt, lemma_floor_sqrt, lemma_product_bound, lemma_square_monotonic};
use crate::geometry::{
    circle_hits, circle_residual, cross, dist_sq, dot, in_box, nearest_is_first, nearest_is_second,
    gap_value, is_root, rectangle_hits, root_difference_exceeds, rooted, segment_gap_den,
    segment_gap_num, segment_hits, segment_residual, Gap,
};
use crate::point::Point;
use crate::primitive::{construct, Primitive, Tool};
use crate::session::{FrameInput, Mode, SessionView};
use crate::store::{Entry, StoreView};

verus! {

/// The squared distance between two points is not negative, and it is zero
/// only between a point and itself.
pub proof fn law_dist_sq(a: Point, b: Point)
    ensures
        dist_sq(a, b) >= 0,
        dist_sq(a, b) == dist_sq(b, a),
        dist_sq(a, b) == 0 <==> a == b,
{
    let dx = a.x() - b.x();
    let dz = a.z() - b.z();
    assert(dx * dx >= 0 && dz * dz >= 0 && (dx * dx == 0 ==> dx == 0) && (dz * dz == 0 ==> dz
        == 0)) by (nonlinear_arith);
    assert((b.x() - a.x()) * (b.x() - a.x()) == dx * dx && (b.z() - a.z()) * (b.z() - a.z()) == dz
        * dz) by (nonlinear_arith)
        requires
            dx == a.x() - b.x(),
            dz == a.z() - b.z(),
    ;
    if dist_sq(a, b) == 0 {
        a.lemma_same_coordinates(b);
    }
    if a == b {
        assert(dx * dx == 0 && dz * dz == 0) by (nonlinear_arith)
            requires
                dx == 0,
                dz == 0,
        ;
    }
}

/// `(a·d - b·c)² + (a·c + b·d)² = (a² + b²)·(c² + d²)`.
proof fn lemma_two_squares(a: int, b: int, c: int, d: int)
    ensures
        (a * d - b * c) * (a * d - b * c) + (a * c + b * d) * (a * c + b * d) == (a * a + b * b) * (
        c * c + d * d),
{
    let ad = a * d;
    let bc = b * c;
    let ac = a * c;
    let bd = b * d;
    assert((ad - bc) * (ad - bc) == ad * ad - 2 * (ad * bc) + bc * bc) by (nonlinear_arith);
    assert((ac + bd) * (ac + bd) == ac * ac + 2 * (ac * bd) + bd * bd) by (nonlinear_arith);
    assert(ad * bc == ac * bd) by (nonlinear_arith)
        requires
            ad == a * d,
            bc == b * c,
            ac == a * c,
            bd == b * d,
    ;
    let aa = a * a;
    let bb = b * b;
    let cc = c * c;
    let dd = d * d;
    assert((aa + bb) * (cc + dd) == aa * cc + aa * dd + bb * cc + bb * dd) by (nonlinear_arith);
    assert(ad * ad == aa * dd) by (nonlinear_arith)
        requires
            ad == a * d,
            aa == a * a,
            dd == d * d,
    ;
    assert(bc * bc == bb * cc) by (nonlinear_arith)
        requires
            bc == b * c,
            bb == b * b,
            cc == c * c,
    ;
    assert(ac * ac == aa * cc) by (nonlinear_arith)
        requires
            ac == a * c,
            aa == a * a,
            cc == c * c,
    ;
    assert(bd * bd == bb * dd) by (nonlinear_arith)
        requires
            bd == b * d,
            bb == b * b,
            dd == d * d,
    ;
}

/// The squares of the cross product and of the scalar product of two vectors
/// add up to the product of their squared lengths.
///
/// So between the ends of a segment, where the gap is `cross² / |ab|²`, the
/// gap is `|ap|² - dot² / |ab|²`: the squared distance from `p` to the foot
/// of its perpendicular on the line through `a` and `b`.
pub proof fn law_cross_and_dot(p: Point, a: Point, b: Point)
    ensures
        cross(p, a, b) * cross(p, a, b) + dot(p, a, b) * dot(p, a, b) == dist_sq(p, a) * dist_sq(
            a,
            b,
        ),
        dist_sq(p, b) == dist_sq(p, a) - 2 * dot(p, a, b) + dist_sq(a, b),
{
    let u = p.x() - a.x();
    let v = p.z() - a.z();
    let s = b.x() - a.x();
    let t = b.z() - a.z();
    lemma_two_squares(u, v, s, t);
    assert((a.x() - b.x()) * (a.x() - b.x()) == s * s && (a.z() - b.z()) * (a.z() - b.z()) == t
        * t) by (nonlinear_arith)
        requires
            s == b.x() - a.x(),
            t == b.z() - a.z(),
    ;
    assert((p.x() - b.x()) * (p.x() - b.x()) + (p.z() - b.z()) * (p.z() - b.z()) == (u * u + v * v)
        - 2 * (u * s + v * t) + (s * s + t * t)) by (nonlinear_arith)
        requires
            u == p.x() - a.x(),
            v == p.z() - a.z(),
            s == b.x() - a.x(),
            t == b.z() - a.z(),
    ;
}

/// The gap between a point and a segment is a fraction that is not negative.
pub proof fn law_segment_gap(p: Point, a: Point, b: Point)
    ensures
        segment_gap_num(p, a, b) >= 0,
        segment_gap_den(p, a, b) >= 1,
        segment_residual(p, a, b) >= 0,
        segment_residual(p, a, b) == 0 <==> segment_gap_num(p, a, b) == 0,
{
    law_dist_sq(p, a);
    law_dist_sq(p, b);
    law_dist_sq(a, b);
    let c = cross(p, a, b);
    assert(c * c >= 0) by (nonlinear_arith);
    let n = segment_gap_num(p, a, b);
    let d = segment_gap_den(p, a, b);
    lemma_ceil_div(n, d);
}

/// `(n + d - 1) / d` is the least `q` with `n <= q * d`.
proof fn lemma_ceil_div(n: int, d: int)
    requires
        n >= 0,
        d >= 1,
    ensures
        n <= ((n + d - 1) / d) * d < n + d,
        (n + d - 1) / d >= 0,
        (n + d - 1) / d == 0 <==> n == 0,
{
    let q = (n + d - 1) / d;
    let r = (n + d - 1) % d;
    lemma_fundamental_div_mod(n + d - 1, d);
    lemma_mod_pos_bound(n + d - 1, d);
    assert(q * d == d * q) by (nonlinear_arith);
    if q < 0 {
        assert(d * q <= -d) by (nonlinear_arith)
            requires
                q <= -1,
                d >= 1,
        ;
    }
    if n == 0 {
        lemma_basic_div(d - 1, d);
    }
    if q == 0 {
        assert(d * q == 0);
    }
}

/// For a segment the two answers agree: a point that hits has a residual of
/// at most `tol²`, and a point whose residual is below `tol²` hits.
pub proof fn law_segment_hit_and_residual(p: Point, a: Point, b: Point, tol: int)
    requires
        tol >= 0,
    ensures
        segment_hits(p, a, b, tol) ==> segment_residual(p, a, b) <= tol * tol,
        segment_residual(p, a, b) < tol * tol ==> segment_hits(p, a, b, tol),
{
    law_segment_gap(p, a, b);
    let n = segment_gap_num(p, a, b);
    let d = segment_gap_den(p, a, b);
    let q = (n + d - 1) / d;
    let t = tol * tol;
    lemma_ceil_div(n, d);
    if segment_hits(p, a, b, tol) && q > t {
        assert(q * d >= t * d + d) by (nonlinear_arith)
            requires
                q >= t + 1,
                d >= 1,
        ;
    }
    if q < t {
        assert(q * d < t * d) by (nonlinear_arith)
            requires
                q < t,
                d >= 1,
        ;
    }
}

/// Whether `p` lies on the segment from `a` to `b`, ends included.
pub open spec fn on_segment(p: Point, a: Point, b: Point) -> bool {
    if a == b {
        p == a
    } else {
        cross(p, a, b) == 0 && 0 <= dot(p, a, b) <= dist_sq(a, b)
    }
}

/// A point on a segment has no gap to it, and hits it under every tolerance
/// above zero.
pub proof fn law_on_segment(p: Point, a: Point, b: Point, tol: int)
    requires
        on_segment(p, a, b),
        tol > 0,
    ensures
        segment_gap_num(p, a, b) == 0,
        segment_residual(p, a, b) == 0,
        segment_hits(p, a, b, tol),
{
    law_dist_sq(a, b);
    law_dist_sq(p, a);
    law_dist_sq(p, b);
    law_cross_and_dot(p, a, b);
    law_segment_gap(p, a, b);
    let len = dist_sq(a, b);
    let d = dot(p, a, b);
    let c = cross(p, a, b);
    let pa = dist_sq(p, a);
    if a != b {
        assert(c * c == 0);
        assert(d * d == pa * len);
        if nearest_is_first(p, a, b) {
            assert(d == 0);
            assert(d * d == 0);
            assert(pa == 0) by (nonlinear_arith)
                requires
                    pa * len == 0,
                    len > 0,
            ;
        } else if nearest_is_second(p, a, b) {
            assert(d == len);
            assert(pa == len) by (nonlinear_arith)
                requires
                    len * len == pa * len,
                    d == len,
                    d * d == pa * len,
                    len > 0,
            ;
        }
    }
    assert(segment_gap_num(p, a, b) == 0);
    assert(tol * tol * segment_gap_den(p, a, b) > 0) by (nonlinear_arith)
        requires
            tol > 0,
            segment_gap_den(p, a, b) >= 1,
    ;
}

/// The gap between a point and a circle, rounded up, is not negative.
pub proof fn law_circle_residual(p: Point, center: Point, radius_sq: int)
    requires
        radius_sq >= 0,
    ensures
        circle_residual(p, center, radius_sq) >= 0,
        circle_residual(p, center, radius_sq) == 0 <==> dist_sq(p, center) == radius_sq,
{
    law_dist_sq(p, center);
    let d = dist_sq(p, center);
    let r = radius_sq;
    assert(4 * d * r >= 0) by (nonlinear_arith)
        requires
            d >= 0,
            r >= 0,
    ;
    lemma_floor_sqrt((4 * d * r) as nat);
    let s = floor_sqrt((4 * d * r) as nat) as int;
    assert((d + r) * (d + r) - 4 * d * r == (d - r) * (d - r)) by (nonlinear_arith);
    assert((d - r) * (d - r) >= 0) by (nonlinear_arith);
    if s > d + r {
        lemma_square_monotonic(d + r + 1, s);
        assert((d + r + 1) * (d + r + 1) > (d + r) * (d + r)) by (nonlinear_arith)
            requires
                d + r >= 0,
        ;
    }
    if s == d + r {
        assert(d == r) by (nonlinear_arith)
            requires
                (d - r) * (d - r) <= 0,
        ;
    }
    if d == r {
        assert(4 * d * r == (d + r) * (d + r)) by (nonlinear_arith)
            requires
                d == r,
        ;
        assert((d + r + 1) * (d + r + 1) > (d + r) * (d + r)) by (nonlinear_arith)
            requires
                d + r >= 0,
        ;
        assert(is_floor_sqrt(4 * d * r, d + r));
    }
}

/// For a circle the two answers agree: a point that hits has a residual of
/// at most `tol²`, and a point whose residual is below `tol²` hits.
pub proof fn law_circle_hit_and_residual(p: Point, center: Point, radius_sq: int, tol: int)
    requires
        radius_sq >= 0,
        tol >= 0,
    ensures
        circle_hits(p, center, radius_sq, tol) ==> circle_residual(p, center, radius_sq) <= tol
            * tol,
        circle_residual(p, center, radius_sq) < tol * tol ==> circle_hits(
            p,
            center,
            radius_sq,
            tol,
        ),
{
    law_dist_sq(p, center);
    let d = dist_sq(p, center);
    let r = radius_sq;
    assert(4 * d * r >= 0) by (nonlinear_arith)
        requires
            d >= 0,
            r >= 0,
    ;
    lemma_floor_sqrt((4 * d * r) as nat);
    let s = floor_sqrt((4 * d * r) as nat) as int;
    let k = d + r - tol * tol;
    if circle_hits(p, center, radius_sq, tol) && k > s {
        lemma_square_monotonic(s + 1, k);
    }
    if k < s && k >= 0 {
        lemma_square_monotonic(k + 1, s);
        assert((k + 1) * (k + 1) > k * k) by (nonlinear_arith)
            requires
                k >= 0,
        ;
    }
}

/// Whether `p` lies on the outline of `shape`: on the segment, on the
/// circumference, or on a side of the rectangle.
pub open spec fn on_outline(shape: Primitive, p: Point) -> bool {
    match shape {
        Primitive::Line { p1, p2 } => on_segment(p, p1, p2),
        Primitive::Circle { center, radius_sq } => dist_sq(p, center) == radius_sq,
        Primitive::Rectangle { p1, p2 } => in_box(p, p1, p2) && (p.x() == p1.x() || p.x() == p2.x()
            || p.z() == p1.z() || p.z() == p2.z()),
    }
}

/// The gap between a point and a shape is made of numbers a gap can be made
/// of.
pub proof fn law_gap_is_well_formed(shape: Primitive, p: Point)
    ensures
        shape.gap(p).wf(),
{
    match shape {
        Primitive::Line { p1, p2 } => {
            law_segment_gap(p, p1, p2);
        },
        Primitive::Circle { center, radius_sq } => {
            law_dist_sq(p, center);
        },
        Primitive::Rectangle { p1, p2 } => {},
    }
}

/// A click on the outline of a shape hits the shape, with the gap zero,
/// whatever the tolerance above zero.
pub proof fn law_click_on_outline_hits(shape: Primitive, p: Point, tol: int)
    requires
        on_outline(shape, p),
        tol > 0,
    ensures
        shape.hits(p, tol),
        shape.gap(p).is_zero(),
        shape.residual(p) == 0,
{
    match shape {
        Primitive::Line { p1, p2 } => {
            law_on_segment(p, p1, p2, tol);
        },
        Primitive::Circle { center, radius_sq } => {
            law_circle_residual(p, center, radius_sq as int);
            law_circle_hit_and_residual(p, center, radius_sq as int, tol);
            assert(tol * tol > 0) by (nonlinear_arith)
                requires
                    tol > 0,
            ;
        },
        Primitive::Rectangle { p1, p2 } => {},
    }
}

/// The residual of a shape is never negative.
pub proof fn law_residual_not_negative(shape: Primitive, p: Point)
    ensures
        shape.residual(p) >= 0,
{
    match shape {
        Primitive::Line { p1, p2 } => {
            law_segment_gap(p, p1, p2);
        },
        Primitive::Circle { center, radius_sq } => {
            law_circle_residual(p, center, radius_sq as int);
        },
        Primitive::Rectangle { p1, p2 } => {},
    }
}

/// Whether entry `j` is hit by a click at `p` that lies on it.
pub open spec fn touched_hit(v: StoreView, j: int, p: Point, tol: int) -> bool {
    v.active_hit(j, p, tol) && v.entries[j].primitive.gap(p).is_zero()
}

/// The entry that comes first among those of the first `n` that the click
/// lies on.
proof fn lemma_first_touched(v: StoreView, p: Point, tol: int, n: int) -> (b: int)
    requires
        0 <= n <= v.entries.len(),
        exists|j: int| 0 <= j < n && touched_hit(v, j, p, tol),
    ensures
        0 <= b < n,
        touched_hit(v, b, p, tol),
        forall|j: int| 0 <= j < n && #[trigger] touched_hit(v, j, p, tol) && j != b ==> v.precedes(b, j),
    decreases n,
{
    let last = n - 1;
    if exists|j: int| 0 <= j < last && touched_hit(v, j, p, tol) {
        let b0 = lemma_first_touched(v, p, tol, last);
        if touched_hit(v, last, p, tol) && v.precedes(last, b0) {
            last
        } else {
            b0
        }
    } else {
        let j = choose|j: int| 0 <= j < n && touched_hit(v, j, p, tol);
        assert(j == last);
        last
    }
}

/// A click that lies on some shape that it hits picks a shape that it lies
/// on: of those shapes the one that comes first.
pub proof fn law_touched_shape_is_picked(v: StoreView, p: Point, tol: int)
    requires
        exists|j: int| touched_hit(v, j, p, tol),
    ensures
        v.best_hit(p, tol) matches Some(b) && {
            &&& v.is_best_hit(b, p, tol)
            &&& touched_hit(v, b, p, tol)
            &&& forall|j: int| #[trigger] touched_hit(v, j, p, tol) && j != b ==> v.precedes(b, j)
        },
{
    let w = choose|j: int| touched_hit(v, j, p, tol);
    assert(0 <= w < v.entries.len() && touched_hit(v, w, p, tol));
    let b = lemma_first_touched(v, p, tol, v.entries.len() as int);
    let gb = v.entries[b].primitive.gap(p);
    law_gap_is_well_formed(v.entries[b].primitive, p);
    assert forall|j: int| #[trigger] v.active_hit(j, p, tol) && j != b implies v.beats(b, j, p) by {
        let gj = v.entries[j].primitive.gap(p);
        law_gap_is_well_formed(v.entries[j].primitive, p);
        gb.lemma_zero_is_least(gj);
        if gj.is_zero() {
            assert(touched_hit(v, j, p, tol));
        }
    }
    assert(v.is_best_hit(b, p, tol));
    v.lemma_best_hit(p, tol);
}

proof fn lemma_fractions_in_order(n1: int, m1: int, n2: int, m2: int)
    by (nonlinear_arith)
    requires
        m1 >= 1,
        m2 >= 1,
    ensures
        n1 * m2 < n2 * m1 <==> (n1 as real) / (m1 as real) < (n2 as real) / (m2 as real),
{
}

proof fn lemma_fraction_and_ring_in_order(m: int, n: int, a: int, b: int, s: real)
    by (nonlinear_arith)
    requires
        m >= 1,
        is_root(s, b),
    ensures
        ({
            let x = m * a - n;
            x > 0 && m * m * b < x * x
        }) <==> (n as real) / (m as real) < (a as real) - s,
        ({
            let x = m * a - n;
            x < 0 || x * x < m * m * b
        }) <==> (a as real) - s < (n as real) / (m as real),
{
}

proof fn lemma_rings_in_order(x: int, y: int, k: int, sx: real, sy: real)
    by (nonlinear_arith)
    requires
        is_root(sx, x),
        is_root(sy, y),
    ensures
        root_difference_exceeds(x, y, k) <==> sx - sy > k as real,
{
}

/// The exact order of two gaps is the order of their values: `less` says,
/// without a root, what the roots would say.
pub proof fn law_less_is_the_order_of_values(g: Gap, h: Gap, sg: real, sh: real)
    requires
        g.wf(),
        h.wf(),
        rooted(g, sg),
        rooted(h, sh),
    ensures
        g.less(h) <==> gap_value(g, sg) < gap_value(h, sh),
{
    match (g, h) {
        (Gap::Fraction { num: n1, den: m1 }, Gap::Fraction { num: n2, den: m2 }) => {
            lemma_fractions_in_order(n1, m1, n2, m2);
        },
        (Gap::Fraction { num, den }, Gap::Ring { dist_sq, radius_sq }) => {
            lemma_fraction_and_ring_in_order(
                den,
                num,
                dist_sq + radius_sq,
                4 * dist_sq * radius_sq,
                sh,
            );
        },
        (Gap::Ring { dist_sq, radius_sq }, Gap::Fraction { num, den }) => {
            lemma_fraction_and_ring_in_order(
                den,
                num,
                dist_sq + radius_sq,
                4 * dist_sq * radius_sq,
                sg,
            );
        },
        (Gap::Ring { dist_sq: d1, radius_sq: r1 }, Gap::Ring { dist_sq: d2, radius_sq: r2 }) => {
            lemma_rings_in_order(4 * d1 * r1, 4 * d2 * r2, (d1 + r1) - (d2 + r2), sg, sh);
        },
    }
}

/// The exact order of gaps is a true order: of three gaps, if the first is
/// smaller than the second and the second is not larger than the third, the
/// first is smaller than the third, and so on.
///
/// The law speaks of the square roots that ring gaps involve, which are no
/// whole numbers. It holds whatever these roots are.
pub proof fn law_nearer_is_an_order(a: Gap, b: Gap, c: Gap, sa: real, sb: real, sc: real)
    requires
        a.wf(),
        b.wf(),
        c.wf(),
        rooted(a, sa),
        rooted(b, sb),
        rooted(c, sc),
    ensures
        a.less(b) && b.less(c) ==> a.less(c),
        a.less(b) && !c.less(b) ==> a.less(c),
        !b.less(a) && b.less(c) ==> a.less(c),
        !b.less(a) && !c.less(b) ==> !c.less(a),
{
    law_less_is_the_order_of_values(a, b, sa, sb);
    law_less_is_the_order_of_values(b, a, sb, sa);
    law_less_is_the_order_of_values(b, c, sb, sc);
    law_less_is_the_order_of_values(c, b, sc, sb);
    law_less_is_the_order_of_values(a, c, sa, sc);
    law_less_is_the_order_of_values(c, a, sc, sa);
}

/// Winning is an order on the entries: an entry that wins against a second,
/// which wins against a third, wins against the third.
pub proof fn law_winning_is_an_order(
    v: StoreView,
    p: Point,
    roots: Seq<real>,
    i: int,
    j: int,
    k: int,
)
    requires
        v.roots_of(p, roots),
        0 <= i < v.entries.len(),
        0 <= j < v.entries.len(),
        0 <= k < v.entries.len(),
        v.beats(i, j, p),
        v.beats(j, k, p),
    ensures
        v.beats(i, k, p),
        i != j ==> !v.beats(j, i, p),
{
    let a = v.entries[i].primitive.gap(p);
    let b = v.entries[j].primitive.gap(p);
    let c = v.entries[k].primitive.gap(p);
    law_gap_is_well_formed(v.entries[i].primitive, p);
    law_gap_is_well_formed(v.entries[j].primitive, p);
    law_gap_is_well_formed(v.entries[k].primitive, p);
    assert(rooted(a, roots[i]) && rooted(b, roots[j]) && rooted(c, roots[k]));
    law_nearer_is_an_order(a, b, c, roots[i], roots[j], roots[k]);
    a.lemma_less_asymmetric(b);
    b.lemma_less_asymmetric(c);
    a.lemma_less_asymmetric(c);
}

/// The entry that wins among the first `n`, where one of them is hit.
proof fn lemma_best_among(v: StoreView, p: Point, tol: int, roots: Seq<real>, n: int) -> (b: int)
    requires
        v.roots_of(p, roots),
        0 <= n <= v.entries.len(),
        exists|j: int| 0 <= j < n && v.active_hit(j, p, tol),
    ensures
        0 <= b < n,
        v.active_hit(b, p, tol),
        forall|j: int| 0 <= j < n && #[trigger] v.active_hit(j, p, tol) && j != b ==> v.beats(b, j, p),
    decreases n,
{
    let last = n - 1;
    if exists|j: int| 0 <= j < last && v.active_hit(j, p, tol) {
        let b0 = lemma_best_among(v, p, tol, roots, last);
        if v.active_hit(last, p, tol) && v.beats(last, b0, p) {
            assert forall|j: int|
                0 <= j < n && #[trigger] v.active_hit(j, p, tol) && j != last implies v.beats(
                last,
                j,
                p,
            ) by {
                if j != b0 {
                    law_winning_is_an_order(v, p, roots, last, b0, j);
                }
            }
            last
        } else {
            if v.active_hit(last, p, tol) {
                v.entries[last].primitive.gap(p).lemma_less_asymmetric(
                    v.entries[b0].primitive.gap(p),
                );
                assert(v.beats(b0, last, p));
            }
            b0
        }
    } else {
        let j = choose|j: int| 0 <= j < n && v.active_hit(j, p, tol);
        assert(j == last);
        last
    }
}

/// A click that hits some shape that is not retired picks a shape: the one
/// that wins against all others that are hit.
///
/// The law speaks of the square roots that ring gaps involve. It holds
/// whatever these roots are.
pub proof fn law_some_hit_is_picked(v: StoreView, p: Point, tol: int, roots: Seq<real>)
    requires
        v.roots_of(p, roots),
        exists|j: int| v.active_hit(j, p, tol),
    ensures
        v.best_hit(p, tol) matches Some(b) && v.is_best_hit(b, p, tol),
        v.select(p, tol).selected is Some,
{
    let j = choose|j: int| v.active_hit(j, p, tol);
    assert(0 <= j < v.entries.len() && v.active_hit(j, p, tol));
    let b = lemma_best_among(v, p, tol, roots, v.entries.len() as int);
    assert(v.is_best_hit(b, p, tol));
    v.lemma_best_hit(p, tol);
}

/// Where no gap is a ring gap, no root is involved: a click that hits some
/// shape, and lies on every circle that it hits or hits none, picks a shape.
pub proof fn law_some_hit_is_picked_without_rings(v: StoreView, p: Point, tol: int)
    requires
        forall|j: int|
            0 <= j < v.entries.len() ==> #[trigger] v.entries[j].primitive.gap(p) is Fraction,
        exists|j: int| v.active_hit(j, p, tol),
    ensures
        v.select(p, tol).selected is Some,
{
    let roots = Seq::new(v.entries.len(), |j: int| 0real);
    assert(v.roots_of(p, roots)) by {
        assert forall|j: int| 0 <= j < v.entries.len() implies rooted(
            v.entries[j].primitive.gap(p),
            #[trigger] roots[j],
        ) by {
            assert(v.entries[j].primitive.gap(p) is Fraction);
        }
    }
    law_some_hit_is_picked(v, p, tol, roots);
}

/// A click that hits no shape leaves no shape picked, whatever was picked
/// before.
pub proof fn law_no_hit_picks_nothing(v: StoreView, p: Point, tol: int)
    requires
        forall|j: int| !v.active_hit(j, p, tol),
    ensures
        v.select(p, tol).selected is None,
{
    v.lemma_best_hit(p, tol);
    if v.best_hit(p, tol) is Some {
        let i = v.best_hit(p, tol).unwrap();
        assert(v.is_best_hit(i, p, tol));
        assert(v.active_hit(i, p, tol));
    }
}

/// Whether `p` is farther than `tol` from `shape`.
///
/// For a line and a circle this is the distance to the outline. A rectangle
/// is hit from its whole inside and from near the four lines through its
/// sides, so a point counts as far from it only outside all of these.
pub open spec fn farther_than(shape: Primitive, p: Point, tol: int) -> bool {
    match shape {
        Primitive::Line { p1, p2 } => segment_gap_num(p, p1, p2) > tol * tol * segment_gap_den(
            p,
            p1,
            p2,
        ),
        Primitive::Circle { center, radius_sq } => {
            let k = dist_sq(p, center) + radius_sq - tol * tol;
            k > 0 && k * k > 4 * dist_sq(p, center) * radius_sq
        },
        Primitive::Rectangle { p1, p2 } => !rectangle_hits(p, p1, p2, tol),
    }
}

/// A click farther than the tolerance from every shape that is not retired
/// leaves no shape picked.
pub proof fn law_click_far_from_all_picks_nothing(v: StoreView, p: Point, tol: int)
    requires
        forall|j: int|
            0 <= j < v.entries.len() && !v.entries[j].retired ==> farther_than(
                #[trigger] v.entries[j].primitive,
                p,
                tol,
            ),
    ensures
        v.select(p, tol).selected is None,
{
    assert forall|j: int| !v.active_hit(j, p, tol) by {
        if 0 <= j < v.entries.len() && !v.entries[j].retired {
            assert(farther_than(v.entries[j].primitive, p, tol));
        }
    }
    law_no_hit_picks_nothing(v, p, tol);
}

/// A click on the outline of a shape that is not retired picks a shape on
/// whose outline the click lies.
///
/// It picks that very shape unless another shape under the click comes
/// before it: where the click lies on several outlines, or in a rectangle,
/// a line comes before a circle and a circle before a rectangle, and of two
/// shapes of one kind the older comes first.
pub proof fn law_click_on_outline_picks(v: StoreView, i: int, p: Point, tol: int)
    requires
        0 <= i < v.entries.len(),
        !v.entries[i].retired,
        on_outline(v.entries[i].primitive, p),
        tol > 0,
    ensures
        v.select(p, tol).selected matches Some(j) && {
            &&& v.active_hit(j, p, tol)
            &&& v.entries[j].primitive.gap(p).is_zero()
            &&& j == i || v.precedes(j, i)
        },
        v.entries.len() == 1 ==> v.select(p, tol).selected == Some(i),
        (forall|k: int|
            0 <= k < v.entries.len() && k != i ==> (#[trigger] v.entries[k]).retired
                || !v.entries[k].primitive.hits(p, tol)) ==> v.select(p, tol).selected == Some(i),
{
    law_click_on_outline_hits(v.entries[i].primitive, p, tol);
    assert(touched_hit(v, i, p, tol));
    law_touched_shape_is_picked(v, p, tol);
}

/// Picking one shape and then another leaves exactly the second picked.
pub proof fn law_selection_moves(v: StoreView, p1: Point, p2: Point, tol: int, x: int, y: int)
    requires
        v.select(p1, tol).selected == Some(x),
        v.select(p1, tol).select(p2, tol).selected == Some(y),
        x != y,
    ensures
        v.select(p1, tol).select(p2, tol).is_selected(y),
        !v.select(p1, tol).select(p2, tol).is_selected(x),
        forall|k: int| v.select(p1, tol).select(p2, tol).is_selected(k) ==> k == y,
        v.select(p1, tol).select(p2, tol).entries == v.entries,
{
}

/// A click picks only a shape that it hits and that is not retired, and it
/// changes no shape.
pub proof fn law_selection_is_a_hit(v: StoreView, p: Point, tol: int)
    ensures
        v.select(p, tol).entries == v.entries,
        v.select(p, tol).wf(),
        v.select(p, tol).selected matches Some(i) ==> v.active_hit(i, p, tol),
{
    v.lemma_best_hit(p, tol);
    if v.best_hit(p, tol) is Some {
        let i = v.best_hit(p, tol).unwrap();
        assert(v.is_best_hit(i, p, tol));
    }
}

/// The shape that a click picks is at least as near to the click as every
/// other shape that the click hits: no hit has a smaller gap. Where another
/// hit is exactly as near, the picked shape comes before it.
pub proof fn law_picked_is_nearest(v: StoreView, p: Point, tol: int, j: int)
    requires
        v.select(p, tol).selected is Some,
        v.active_hit(j, p, tol),
    ensures
        ({
            let i = v.select(p, tol).selected.unwrap();
            let picked = v.entries[i].primitive.gap(p);
            let other = v.entries[j].primitive.gap(p);
            &&& v.active_hit(i, p, tol)
            &&& !other.less(picked)
            &&& !picked.less(other) && j != i ==> v.precedes(i, j)
        }),
{
    v.lemma_best_hit(p, tol);
    let i = v.best_hit(p, tol).unwrap();
    assert(v.is_best_hit(i, p, tol));
    let picked = v.entries[i].primitive.gap(p);
    let other = v.entries[j].primitive.gap(p);
    picked.lemma_less_asymmetric(other);
    if j != i {
        assert(v.beats(i, j, p));
    } else {
        picked.lemma_less_asymmetric(picked);
    }
}

/// Of two fractions the exact order is the order across: no rounding is
/// made. Two gaps that round up to the same whole number are still told
/// apart.
pub proof fn law_fractions_are_compared_exactly(n1: int, m1: int, n2: int, m2: int)
    requires
        m1 >= 1,
        m2 >= 1,
    ensures
        (Gap::Fraction { num: n1, den: m1 }).less(Gap::Fraction { num: n2, den: m2 }) <==> n1 * m2
            < n2 * m1,
{
}

/// A shape is extruded once: right after an extrusion there is nothing to
/// extrude, and the retired shape is hit by no click.
pub proof fn law_extruded_once(v: StoreView, distance: int, p: Point, tol: int)
    ensures
        v.extrude().extrusion(distance) is None,
        v.extrude().entries.len() == v.entries.len(),
        v.extrude().selected == v.selected,
        v.extrudable() matches Some(i) ==> !v.extrude().active_hit(i, p, tol),
{
}

/// Every operation on a store keeps the picked index inside the store.
pub proof fn law_store_stays_well_formed(v: StoreView, shape: Primitive, p: Point, tol: int)
    requires
        v.wf(),
    ensures
        StoreView::empty().wf(),
        v.commit(shape).wf(),
        v.select(p, tol).wf(),
        v.extrude().wf(),
{
    law_selection_is_a_hit(v, p, tol);
}

/// Two clicks with a drawing tool add one shape to the store, built from the
/// first click and the second in this order: a line from `a` to `b`, a circle
/// about `a` through `b`, whose squared radius is the squared distance from
/// `a` to `b` exactly, or a rectangle with the corners `a` and `b`. The
/// pending click is gone and the selection is as before.
pub proof fn law_two_clicks_draw(s: SessionView, a: Point, b: Point)
    requires
        s.mode == Mode::Sketching,
        s.tool != Tool::Select,
        s.anchor is None,
        a.in_range(),
        b.in_range(),
    ensures
        ({
            let pending = s.primary_click(Some(a));
            let drawn = pending.primary_click(Some(b));
            let shape = construct(s.tool, a, b).unwrap();
            &&& pending.anchor == Some(a)
            &&& pending.store == s.store
            &&& drawn.anchor is None
            &&& drawn.store.entries == s.store.entries.push(Entry { primitive: shape, retired: false })
            &&& drawn.store.selected == s.store.selected
            &&& drawn.mode == s.mode && drawn.tool == s.tool && drawn.extrude_distance
                == s.extrude_distance
            &&& s.tool == Tool::Line ==> shape == Primitive::Line { p1: a, p2: b }
            &&& s.tool == Tool::Circle ==> (shape matches Primitive::Circle { center, radius_sq }
                && center == a && radius_sq == dist_sq(a, b))
            &&& s.tool == Tool::Rectangle ==> shape == Primitive::Rectangle { p1: a, p2: b }
        }),
{
    a.lemma_in_range();
    b.lemma_in_range();
    law_dist_sq(a, b);
    let dx = a.x() - b.x();
    let dz = a.z() - b.z();
    lemma_product_bound(dx, dx, 0x4000_0000, 0x4000_0000);
    lemma_product_bound(dz, dz, 0x4000_0000, 0x4000_0000);
}

/// A second click under another tool finishes the shape under the new tool.
pub proof fn law_tool_change_keeps_anchor(s: SessionView, tool: Tool, b: Point)
    requires
        s.mode == Mode::Sketching,
        s.anchor is Some,
        tool != Tool::Select,
    ensures
        s.set_tool(tool).anchor == s.anchor,
        s.set_tool(tool).primary_click(Some(b)).store == s.store.commit(
            construct(tool, s.anchor.unwrap(), b).unwrap(),
        ),
        s.set_tool(tool).primary_click(None) == s.set_tool(tool),
{
}

/// Cancelling with no pending click changes nothing, and cancelling twice is
/// cancelling once.
pub proof fn law_cancel_without_anchor(s: SessionView)
    ensures
        s.anchor is None ==> s.secondary_click() == s,
        s.secondary_click().secondary_click() == s.secondary_click(),
        s.secondary_click().store == s.store,
{
}

/// Entering the sketching mode and leaving it at once leaves the store
/// empty, whatever it held before.
pub proof fn law_enter_and_exit_empties(s: SessionView)
    ensures
        s.start_sketch().finish_sketch().store == StoreView::empty(),
        s.start_sketch().finish_sketch().anchor is None,
        s.start_sketch().finish_sketch().mode == Mode::Viewing,
        s.start_sketch().store.entries.len() == 0 || s.mode == Mode::Sketching,
{
}

/// A session starts well formed and every operation keeps it so: outside a
/// sketch there is no pending click and no shape, and the picked index is
/// inside the store.
pub proof fn law_session_stays_well_formed(
    s: SessionView,
    tool: Tool,
    distance: int,
    point: Option<Point>,
    input: FrameInput,
)
    requires
        s.inv(),
    ensures
        SessionView::initial().inv(),
        s.start_sketch().inv(),
        s.finish_sketch().inv(),
        s.set_tool(tool).inv(),
        s.set_extrude_distance(distance).inv(),
        s.primary_click(point).inv(),
        s.secondary_click().inv(),
        s.extrude().inv(),
        s.tick(input).inv(),
{
    if let Some(p) = point {
        law_selection_is_a_hit(s.store, p, crate::units::SELECT_TOLERANCE as int);
    }
    if let Some(p) = input.point() {
        law_selection_is_a_hit(s.store, p, crate::units::SELECT_TOLERANCE as int);
    }
    assert(s.primary_click(input.point()).inv());
    assert(s.clicks(input).inv());
}

/// Outside the sketching mode clicks and extrusions do nothing.
pub proof fn law_viewing_ignores_input(s: SessionView, input: FrameInput)
    requires
        s.mode == Mode::Viewing,
        s.anchor is None,
    ensures
        s.tick(input) == s,
        s.tick_solid(input) is None,
{
}

} // verus!
