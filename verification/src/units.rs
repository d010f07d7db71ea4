//! The fixed-point scale of the engine and the constants that depend on it.
use vstd::prelude::*;

verus! {

/// Number of ticks in one world unit.
pub const TICKS_PER_UNIT: i32 = 1000;

/// Largest magnitude a plane coordinate may have, in ticks.
///
/// With coordinates inside this limit every intermediate value of the
/// distance computations fits in 128 bits.
pub const COORD_LIMIT: i32 = 0x2000_0000;

/// Distance, in ticks, within which a click picks a shape: a tenth of a unit.
pub const SELECT_TOLERANCE: u32 = 100;

/// Extrusion distance of a fresh sketch session, in ticks.
pub const DEFAULT_EXTRUDE_DISTANCE: i32 = 0;

} // verus!
