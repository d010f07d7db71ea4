//! Extrusion of a shape of the sketch into the description of a solid.
//!
//! A shape is always extruded along the vertical axis. The distance may be
//! zero or negative; a negative distance gives a solid below the plane.
use vstd::prelude::*;
use crate::point::{Point, Position};
use crate::primitive::Primitive;
use crate::arith::magnitude;

verus! {

/// The description of a solid, for a renderer to turn into geometry.
///
/// The centre of a cylinder or a box lies half the extrusion distance above
/// the plane, and for a box halfway between two corners. Such a half need not
/// be a whole number of ticks, so the centre is given doubled: `center_twice`
/// holds twice each of its coordinates.
#[derive(Clone, Copy, Debug, PartialEq, Eq)]
pub enum Solid {
    /// A flat four-cornered face standing on a line of the sketch, as a mesh
    /// of two triangles.
    Quad {
        /// The corners, counter-clockwise as `indices` refers to them.
        positions: [Position; 4],
        /// The direction of the normal at each corner.
        normals: [Position; 4],
        /// The texture coordinates of each corner.
        uvs: [(u8, u8); 4],
        /// The corners of the two triangles.
        indices: [u32; 6],
    },
    /// An upright cylinder.
    Cylinder {
        /// The square of the radius.
        radius_sq: u64,
        /// The height; negative when the cylinder hangs below the plane.
        height: i64,
        /// Twice the centre of the cylinder.
        center_twice: Position,
    },
    /// A box with sides along the axes.
    Cuboid {
        /// The extent along `x`.
        width: i64,
        /// The extent along `y`; negative when the box hangs below the plane.
        height: i64,
        /// The extent along `z`.
        depth: i64,
        /// Twice the centre of the box.
        center_twice: Position,
    },
}

/// The upward direction.
pub open spec fn up() -> Position {
    Position { x: 0, y: 1, z: 0 }
}

/// The solid that extruding `primitive` by `distance` gives.
///
/// - A line from `p1` to `p2` gives the quad `p1`, `p2`, `p2` raised by
///   `distance`, `p1` raised by `distance`, with the upward normal at every
///   corner and the triangles `(0, 1, 2)` and `(0, 2, 3)`.
/// - A circle gives a cylinder of the same radius and of height `distance`,
///   whose axis stands on the centre of the circle and whose base lies in the
///   plane.
/// - A rectangle gives a box over it of height `distance`.
pub open spec fn extruded(primitive: Primitive, distance: int) -> Solid {
    match primitive {
        Primitive::Line { p1, p2 } => Solid::Quad {
            positions: [p1.lift(0), p2.lift(0), p2.lift(distance), p1.lift(distance)],
            normals: [up(), up(), up(), up()],
            uvs: [(0u8, 0u8), (1u8, 0u8), (1u8, 1u8), (0u8, 1u8)],
            indices: [0u32, 1u32, 2u32, 0u32, 2u32, 3u32],
        },
        Primitive::Circle { center, radius_sq } => Solid::Cylinder {
            radius_sq,
            height: distance as i64,
            center_twice: Position {
                x: (2 * center.x()) as i64,
                y: distance as i64,
                z: (2 * center.z()) as i64,
            },
        },
        Primitive::Rectangle { p1, p2 } => Solid::Cuboid {
            width: magnitude(p1.x() - p2.x()) as i64,
            height: distance as i64,
            depth: magnitude(p1.z() - p2.z()) as i64,
            center_twice: Position {
                x: (p1.x() + p2.x()) as i64,
                y: distance as i64,
                z: (p1.z() + p2.z()) as i64,
            },
        },
    }
}

/// The position `height` ticks above `p`.
fn raised(p: Point, height: i32) -> (r: Position)
    ensures
        r == p.lift(height as int),
{
    let base: Position = p.position();
    Position { x: base.x, y: height as i64, z: base.z }
}

/// The magnitude of the difference of two plane coordinates.
fn extent(u: i32, v: i32) -> (r: i64)
    ensures
        r == magnitude(u - v),
{
    let d: i64 = u as i64 - v as i64;
    if d < 0 {
        -d
    } else {
        d
    }
}

/// Extrudes `primitive` by `distance` ticks along the vertical axis.
///
/// Every shape and every distance is accepted: a degenerate shape gives a
/// degenerate solid, a negative distance a solid below the plane.
pub fn extrude(primitive: &Primitive, distance: i32) -> (solid: Solid)
    ensures
        solid == extruded(*primitive, distance as int),
{
    match *primitive {
        Primitive::Line { p1, p2 } => {
            let normal: Position = Position { x: 0, y: 1, z: 0 };
            Solid::Quad {
                positions: [raised(p1, 0), raised(p2, 0), raised(p2, distance), raised(p1, distance)],
                normals: [normal, normal, normal, normal],
                uvs: [(0, 0), (1, 0), (1, 1), (0, 1)],
                indices: [0, 1, 2, 0, 2, 3],
            }
        },
        Primitive::Circle { center, radius_sq } => Solid::Cylinder {
            radius_sq,
            height: distance as i64,
            center_twice: Position {
                x: 2 * (center.x() as i64),
                y: distance as i64,
                z: 2 * (center.z() as i64),
            },
        },
        Primitive::Rectangle { p1, p2 } => Solid::Cuboid {
            width: extent(p1.x(), p2.x()),
            height: distance as i64,
            depth: extent(p1.z(), p2.z()),
            center_twice: Position {
                x: p1.x() as i64 + p2.x() as i64,
                y: distance as i64,
                z: p1.z() as i64 + p2.z() as i64,
            },
        },
    }
}

} // verus!
