//! From a ray through the cursor to the point of the sketch plane under it.
use vstd::prelude::*;
use crate::point::{coord_in_range, Point, Ray};
use crate::arith::{lemma_product_bound, magnitude};
use vstd::arithmetic::div_mod::{lemma_basic_div, lemma_div_is_ordered_by_denominator};

verus! {

/// `n / d` rounded to the nearest whole number, a half away from zero, for
/// `d > 0`.
pub open spec fn round_div(n: int, d: int) -> int {
    if n >= 0 {
        (2 * n + d) / (2 * d)
    } else {
        -((2 * (-n) + d) / (2 * d))
    }
}

impl Ray {
    /// Whether the ray meets the sketch plane at a point other than its
    /// origin: it starts off the plane and runs towards it.
    pub open spec fn meets_plane(self) -> bool {
        (self.origin.y > 0 && self.direction.y < 0) || (self.origin.y < 0 && self.direction.y > 0)
    }

    /// The `x` of the point where the ray meets the plane, rounded to the grid.
    ///
    /// The ray reaches the plane after `|origin.y| / |direction.y|` times its
    /// direction.
    pub open spec fn plane_x(self) -> int {
        self.origin.x + round_div(
            magnitude(self.origin.y as int) * self.direction.x,
            magnitude(self.direction.y as int),
        )
    }

    /// The `z` of the point where the ray meets the plane, rounded to the grid.
    pub open spec fn plane_z(self) -> int {
        self.origin.z + round_div(
            magnitude(self.origin.y as int) * self.direction.z,
            magnitude(self.direction.y as int),
        )
    }

    /// Whether the ray meets the plane at a point that [`Point`] can hold.
    pub open spec fn lands(self) -> bool {
        self.meets_plane() && coord_in_range(self.plane_x()) && coord_in_range(self.plane_z())
    }

    /// The point of the plane that the ray meets, if it lands.
    pub open spec fn landing(self) -> Option<Point> {
        if self.lands() {
            Some(Point::at(self.plane_x(), self.plane_z()))
        } else {
            None
        }
    }

    /// The point of the sketch plane that the ray meets, rounded to the grid.
    ///
    /// There is none when the ray runs along the plane or away from it, when
    /// it starts in the plane, and when it meets the plane beyond the
    /// coordinate limit.
    pub fn intersect_plane(&self) -> (r: Option<Point>)
        ensures
            r == self.landing(),
            r is Some <==> self.lands(),
            r matches Some(p) ==> p.x() == self.plane_x() && p.z() == self.plane_z(),
    {
        let oy: i64 = self.origin.y;
        let dy: i64 = self.direction.y;
        if (oy > 0 && dy < 0) || (oy < 0 && dy > 0) {
            let height: u128 = abs_wide(oy);
            let fall: u128 = abs_wide(dy);
            let x: i128 = self.origin.x as i128 + travel(height, self.direction.x, fall);
            let z: i128 = self.origin.z as i128 + travel(height, self.direction.z, fall);
            if -0x2000_0000 <= x && x <= 0x2000_0000 && -0x2000_0000 <= z && z <= 0x2000_0000 {
                Point::new(x as i32, z as i32)
            } else {
                None
            }
        } else {
            None
        }
    }
}

/// The magnitude of `v`.
fn abs_wide(v: i64) -> (r: u128)
    ensures
        r == magnitude(v as int),
        r <= 0x8000_0000_0000_0000,
{
    if v < 0 {
        (-(v as i128)) as u128
    } else {
        v as u128
    }
}

/// How far a ray travels along one horizontal axis while it comes down
/// `height`, when it moves `step` along that axis for every `fall` that it
/// comes down.
fn travel(height: u128, step: i64, fall: u128) -> (r: i128)
    requires
        height <= 0x8000_0000_0000_0000,
        0 < fall <= 0x8000_0000_0000_0000,
    ensures
        r == round_div(height * step, fall as int),
        -0x5000_0000_0000_0000_0000_0000_0000_0000 <= r <= 0x5000_0000_0000_0000_0000_0000_0000_0000,
{
    let reach: u128 = abs_wide(step);
    proof {
        lemma_product_bound(height as int, reach as int, 0x8000_0000_0000_0000, 0x8000_0000_0000_0000);
        assert(height * reach >= 0) by (nonlinear_arith)
            requires
                height >= 0,
                reach >= 0,
        ;
        if step < 0 {
            assert(-(height * step) == height * reach) by (nonlinear_arith)
                requires
                    reach == -step,
            ;
            assert(height * step <= 0) by (nonlinear_arith)
                requires
                    height >= 0,
                    step < 0,
            ;
        }
    }
    let n: u128 = height * reach;
    let q: u128 = (2 * n + fall) / (2 * fall);
    proof {
        lemma_div_is_ordered_by_denominator(2 * n + fall, 2, 2 * fall);
        if n == 0 {
            lemma_basic_div(fall as int, 2 * fall);
        }
    }
    if step < 0 {
        if n == 0 {
            0
        } else {
            -(q as i128)
        }
    } else {
        q as i128
    }
}

/// The point of the sketch plane under the cursor, if there is one.
pub open spec fn projected(cursor_ray: Option<Ray>) -> Option<Point> {
    match cursor_ray {
        Some(ray) => ray.landing(),
        None => None,
    }
}

/// The point of the sketch plane under the cursor, given the ray that the
/// camera casts through the cursor, or `None` in place of the ray when the
/// cursor is outside the window.
///
/// Nothing is kept from one call to the next: the camera may move between
/// two frames.
pub fn screen_to_world(cursor_ray: Option<Ray>) -> (r: Option<Point>)
    ensures
        r == projected(cursor_ray),
        r is Some <==> (cursor_ray matches Some(ray) && ray.lands()),
        r matches Some(p) ==> cursor_ray matches Some(ray) && p.x() == ray.plane_x() && p.z()
            == ray.plane_z(),
{
    match cursor_ray {
        Some(ray) => ray.intersect_plane(),
        None => None,
    }
}

} // verus!
