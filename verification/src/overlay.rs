//! What is drawn over the scene while sketching: the shapes of the store,
//! each in the paint that its state calls for, and the ground grid.
use vstd::prelude::*;
use crate::point::{coord_in_range, Point};
use crate::primitive::Primitive;
use crate::store::{SketchStore, StoreView};
use crate::units::{COORD_LIMIT, TICKS_PER_UNIT};

verus! {

/// The paint of a shape on the overlay. Which colour stands for each paint is
/// up to the renderer; the three must differ.
#[derive(Clone, Copy, Debug, PartialEq, Eq, Structural)]
pub enum Paint {
    /// The paint of the picked shape.
    Accent,
    /// The paint of every other shape of the store.
    Neutral,
    /// The paint of the shape that is being drawn.
    Highlight,
}

/// A shape to draw and the paint to draw it in.
#[derive(Clone, Copy, Debug, PartialEq, Eq, Structural)]
pub struct OverlayItem {
    pub primitive: Primitive,
    pub paint: Paint,
}

impl StoreView {
    /// The paint of entry `i`: the accent for the picked shape, neutral for
    /// the others.
    pub open spec fn paint_of(self, i: int) -> Paint {
        if self.is_selected(i) {
            Paint::Accent
        } else {
            Paint::Neutral
        }
    }

    /// The overlay of the first `n` entries: those that are not retired,
    /// oldest first, each in its paint.
    pub open spec fn painted(self, n: int) -> Seq<OverlayItem>
        decreases n,
    {
        if n <= 0 {
            Seq::empty()
        } else if self.entries[n - 1].retired {
            self.painted(n - 1)
        } else {
            self.painted(n - 1).push(
                OverlayItem { primitive: self.entries[n - 1].primitive, paint: self.paint_of(n - 1) },
            )
        }
    }

    /// The overlay of the whole store.
    pub open spec fn overlay(self) -> Seq<OverlayItem> {
        self.painted(self.entries.len() as int)
    }
}

/// The shapes of `store` to draw, oldest first, each with its paint.
/// Retired shapes are left out.
pub fn store_overlay(store: &SketchStore) -> (items: Vec<OverlayItem>)
    ensures
        items@ == store@.overlay(),
{
    let mut items: Vec<OverlayItem> = Vec::new();
    let n: usize = store.len();
    let mut k: usize = 0;
    while k < n
        invariant
            k <= n,
            n == store@.entries.len(),
            items@ == store@.painted(k as int),
        decreases n - k,
    {
        if let Some(e) = store.entry(k) {
            if !e.retired {
                let paint: Paint = if store.is_selected(k) {
                    Paint::Accent
                } else {
                    Paint::Neutral
                };
                items.push(OverlayItem { primitive: e.primitive, paint });
            }
        }
        k = k + 1;
    }
    items
}

/// The paint of a line of the ground grid.
#[derive(Clone, Copy, Debug, PartialEq, Eq, Structural)]
pub enum GridPaint {
    /// An ordinary line of the grid.
    Minor,
    /// The axis along `x`.
    AxisX,
    /// The axis along `z`.
    AxisZ,
}

/// A line of the ground grid, from `from` to `to`.
#[derive(Clone, Copy, Debug, PartialEq, Eq, Structural)]
pub struct GridLine {
    pub from: Point,
    pub to: Point,
    pub paint: GridPaint,
}

/// Half the side of the ground grid, in ticks: ten units.
pub const GRID_EXTENT: i32 = 10 * TICKS_PER_UNIT;

/// The distance between two neighbouring lines of the ground grid, in ticks:
/// one unit.
pub const GRID_SPACING: i32 = TICKS_PER_UNIT;

/// Whether a grid of half side `extent` with lines `spacing` apart can be
/// drawn.
pub open spec fn grid_valid(extent: int, spacing: int) -> bool {
    0 < spacing && 0 <= extent <= COORD_LIMIT
}

/// The number of grid lines on one side of an axis.
pub open spec fn grid_steps(extent: int, spacing: int) -> int {
    extent / spacing
}

/// Line `k` of the grid, as [`grid_lines`] lists them.
///
/// Lines come in pairs. Pair `i`, counted from zero, lies `i - steps`
/// spacings from the axes: first the line along `x`, then the line along `z`.
/// After the pairs come the two axes.
pub open spec fn grid_line(extent: int, spacing: int, k: int) -> GridLine {
    let steps = grid_steps(extent, spacing);
    let offset = (k / 2 - steps) * spacing;
    if k == 2 * (2 * steps + 1) {
        GridLine { from: Point::at(-extent, 0), to: Point::at(extent, 0), paint: GridPaint::AxisX }
    } else if k == 2 * (2 * steps + 1) + 1 {
        GridLine { from: Point::at(0, -extent), to: Point::at(0, extent), paint: GridPaint::AxisZ }
    } else if k % 2 == 0 {
        GridLine {
            from: Point::at(-extent, offset),
            to: Point::at(extent, offset),
            paint: GridPaint::Minor,
        }
    } else {
        GridLine {
            from: Point::at(offset, -extent),
            to: Point::at(offset, extent),
            paint: GridPaint::Minor,
        }
    }
}

/// The point `(x, z)` of a grid, whose coordinates are in range.
fn grid_point(x: i32, z: i32) -> (p: Point)
    requires
        coord_in_range(x as int),
        coord_in_range(z as int),
    ensures
        p == Point::at(x as int, z as int),
{
    match Point::new(x, z) {
        Some(p) => p,
        None => Point::origin(),
    }
}

/// The lines of a square grid on the sketch plane about the origin, of half
/// side `extent`, with lines `spacing` apart, followed by the two axes.
///
/// The grid does not depend on the sketch. `None` is returned when `spacing`
/// is not positive or `extent` is negative or beyond the coordinate limit.
pub fn grid_lines(extent: i32, spacing: i32) -> (r: Option<Vec<GridLine>>)
    ensures
        r is Some <==> grid_valid(extent as int, spacing as int),
        r matches Some(lines) ==> {
            &&& lines@.len() == 2 * (2 * grid_steps(extent as int, spacing as int) + 1) + 2
            &&& forall|k: int|
                0 <= k < lines@.len() ==> lines@[k] == grid_line(extent as int, spacing as int, k)
        },
{
    if spacing <= 0 || extent < 0 || extent > COORD_LIMIT {
        return None;
    }
    let steps: i32 = extent / spacing;
    proof {
        vstd::arithmetic::div_mod::lemma_div_pos_is_pos(extent as int, spacing as int);
        vstd::arithmetic::div_mod::lemma_fundamental_div_mod(extent as int, spacing as int);
        vstd::arithmetic::div_mod::lemma_mod_pos_bound(extent as int, spacing as int);
        assert(spacing * steps <= extent) by (nonlinear_arith)
            requires
                extent == spacing * steps + (extent as int) % (spacing as int),
                0 <= (extent as int) % (spacing as int),
        ;
    }
    let mut lines: Vec<GridLine> = Vec::new();
    let mut i: i32 = -steps;
    while i <= steps
        invariant
            grid_valid(extent as int, spacing as int),
            steps == grid_steps(extent as int, spacing as int),
            0 <= steps,
            spacing * steps <= extent,
            -steps <= i <= steps + 1,
            lines@.len() == 2 * (i + steps),
            forall|k: int|
                0 <= k < lines@.len() ==> lines@[k] == grid_line(extent as int, spacing as int, k),
        decreases steps + 1 - i,
    {
        proof {
            assert(-extent <= i * spacing <= extent) by (nonlinear_arith)
                requires
                    -steps <= i <= steps,
                    0 < spacing,
                    spacing * steps <= extent,
            ;
        }
        let offset: i32 = i * spacing;
        let ghost len = lines@.len() as int;
        assert(len / 2 == i + steps && len % 2 == 0);
        assert((len + 1) / 2 == i + steps && (len + 1) % 2 == 1);
        assert((len / 2 - steps) * spacing == offset);
        lines.push(
            GridLine {
                from: grid_point(-extent, offset),
                to: grid_point(extent, offset),
                paint: GridPaint::Minor,
            },
        );
        lines.push(
            GridLine {
                from: grid_point(offset, -extent),
                to: grid_point(offset, extent),
                paint: GridPaint::Minor,
            },
        );
        i = i + 1;
    }
    lines.push(
        GridLine { from: grid_point(-extent, 0), to: grid_point(extent, 0), paint: GridPaint::AxisX },
    );
    lines.push(
        GridLine { from: grid_point(0, -extent), to: grid_point(0, extent), paint: GridPaint::AxisZ },
    );
    Some(lines)
}

/// The lines of the ground grid: ten units to each side of the origin, one
/// unit apart.
pub fn draw_grid() -> (lines: Vec<GridLine>)
    ensures
        lines@.len() == 44,
        forall|k: int|
            0 <= k < 44 ==> lines@[k] == grid_line(GRID_EXTENT as int, GRID_SPACING as int, k),
{
    match grid_lines(GRID_EXTENT, GRID_SPACING) {
        Some(lines) => lines,
        None => Vec::new(),
    }
}

} // verus!
