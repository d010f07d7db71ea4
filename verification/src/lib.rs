//! A sketch-and-extrude modelling core.
//!
//! Shapes are drawn on a horizontal ground plane with two clicks each, one of
//! them can be picked with a click near its outline, and the picked shape is
//! extruded along the vertical axis into the description of a solid.
//!
//! All lengths are whole numbers of ticks, a fixed fraction of one world
//! unit ([`units::TICKS_PER_UNIT`]). A program that lives in floating-point
//! world units converts at its border.
//!
//! - [`point`] holds the points of the plane, positions in space and rays.
//! - [`projector`] finds the point of the plane under the cursor.
//! - [`geometry`] measures how far a point is from a segment, a circle and a
//!   rectangle, and tells which of two such gaps is the smaller, exactly.
//! - [`primitive`] holds the shapes and the rule that builds one from two
//!   clicks.
//! - [`store`] holds the shapes of a sketch and picks one by a click.
//! - [`extrude`] turns a shape into the description of a solid.
//! - [`session`] is the whole engine: the mode, the tool, the clicks and the
//!   commands, frame by frame.
//! - [`overlay`] lists what to draw over the scene.
//! - [`laws`] states what holds of these together.
pub mod units;
pub mod arith;
pub mod point;
pub mod projector;
pub mod geometry;
pub mod primitive;
pub mod extrude;
pub mod store;
pub mod overlay;
pub mod session;
pub mod laws;
