//! Grid coordinates and the static arena bounds that decide which cells are
//! valid positions for the snake and its food.

use vstd::prelude::*;

verus! {

/// One cell of the arena, addressed by integer coordinates. Cells are plain
/// values compared by their coordinates.
#[derive(Clone, Copy, PartialEq, Eq, Structural, Debug)]
pub struct Cell {
    pub x: i32,
    pub y: i32,
}

/// The static bounds of the arena. Valid coordinates lie in
/// `[0, width) x [0, height)`.
#[derive(Clone, Copy, PartialEq, Eq, Structural, Debug)]
pub struct Grid {
    pub width: i32,
    pub height: i32,
}

impl Grid {
    /// A grid is well formed when both of its extents are positive.
    pub open spec fn wf(self) -> bool {
        0 < self.width && 0 < self.height
    }

    /// Whether the point `(x, y)` lies inside the arena.
    pub open spec fn contains_xy(self, x: int, y: int) -> bool {
        0 <= x < self.width && 0 <= y < self.height
    }

    /// Whether a cell lies inside the arena.
    pub open spec fn contains_cell(self, c: Cell) -> bool {
        self.contains_xy(c.x as int, c.y as int)
    }

    /// Builds a grid from its extents, rejecting empty arenas: a width or
    /// height of zero (or less) is an invalid configuration and is refused
    /// at construction time.
    pub fn new(width: i32, height: i32) -> (r: Option<Grid>)
        ensures
            r is Some <==> 0 < width && 0 < height,
            r matches Some(g) ==> g == (Grid { width, height }),
    {
        if 0 < width && 0 < height {
            Some(Grid { width, height })
        } else {
            None
        }
    }

    /// Bounds check used by the movement and food-placement logic.
    pub fn in_bounds(&self, c: Cell) -> (r: bool)
        ensures
            r == self.contains_cell(c),
    {
        0 <= c.x && c.x < self.width && 0 <= c.y && c.y < self.height
    }
}

} // verus!
