//! Food placement: picking a cell of the arena that the snake does not
//! occupy, by bounded rejection sampling with a full-board scan as fallback.

use vstd::prelude::*;
use crate::grid::Cell;
use crate::grid::Grid;

verus! {

/// How many random candidates are tried before the placement falls back to
/// scanning the whole board for a free cell.
pub const RESPAWN_SAMPLE_TRIES: usize = 32;

/// Relies on rand::random: draws a value from the thread-local generator.
/// The value depends on the generator's state, so nothing is promised of
/// it; every caller must cope with any value.
#[verifier::external_body]
fn random_u32() -> (r: u32) {
    rand::random::<u32>()
}

/// Whether some cell of the grid is not among the occupied cells.
pub open spec fn has_free_cell(g: Grid, occupied: Seq<Cell>) -> bool {
    exists|c: Cell| g.contains_cell(c) && !occupied.contains(c)
}

/// What a food respawn guarantees: any cell it returns lies inside the grid
/// and off every occupied cell, and it returns a cell whenever a free one
/// exists, so it comes back empty only on a fully occupied board.
pub open spec fn respawn_ok(g: Grid, occupied: Seq<Cell>, r: Option<Cell>) -> bool {
    &&& (r matches Some(c) ==> g.contains_cell(c) && !occupied.contains(c))
    &&& (has_free_cell(g, occupied) ==> r is Some)
}

/// How the food changes over a tick that does not collide: food already on
/// the board is kept as it is; absent food (round start, or food just
/// eaten) is respawned off the occupied cells, staying absent only when
/// they cover the whole board.
pub open spec fn food_step(
    g: Grid,
    before: Option<Cell>,
    occupied: Seq<Cell>,
    after: Option<Cell>,
) -> bool {
    match before {
        Some(f) => after == Some(f),
        None => respawn_ok(g, occupied, after),
    }
}

/// Linear membership test over a list of cells.
pub fn cells_contain(cells: &Vec<Cell>, c: Cell) -> (r: bool)
    ensures
        r == cells@.contains(c),
{
    let mut i: usize = 0;
    while i < cells.len()
        invariant
            0 <= i <= cells@.len(),
            forall|j: int| 0 <= j < i ==> cells@[j] != c,
        decreases cells@.len() - i,
    {
        if cells[i] == c {
            return true;
        }
        i += 1;
    }
    false
}

/// Draws a uniformly random coordinate in `[0, bound)`.
fn random_below(bound: i32) -> (r: i32)
    requires
        0 < bound,
    ensures
        0 <= r < bound,
{
    let raw: u32 = random_u32();
    let m: u32 = raw % (bound as u32);
    m as i32
}

/// Picks a cell of the grid that is not occupied: first by drawing random
/// cells a bounded number of times, then, if every draw was occupied, by
/// scanning the board row by row for the first free cell. Returns `None`
/// only when the occupied cells cover the whole grid.
pub fn respawn(g: &Grid, occupied: &Vec<Cell>) -> (r: Option<Cell>)
    requires
        g.wf(),
    ensures
        respawn_ok(*g, occupied@, r),
{
    let mut tries: usize = 0;
    while tries < RESPAWN_SAMPLE_TRIES
        invariant
            g.wf(),
        decreases RESPAWN_SAMPLE_TRIES - tries,
    {
        let candidate = Cell { x: random_below(g.width), y: random_below(g.height) };
        if !cells_contain(occupied, candidate) {
            return Some(candidate);
        }
        tries = tries + 1;
    }
    let mut y: i32 = 0;
    while y < g.height
        invariant
            g.wf(),
            0 <= y <= g.height,
            forall|c: Cell| #[trigger] g.contains_cell(c) && c.y < y ==> occupied@.contains(c),
        decreases g.height - y,
    {
        let mut x: i32 = 0;
        while x < g.width
            invariant
                g.wf(),
                0 <= x <= g.width,
                0 <= y < g.height,
                forall|c: Cell| #[trigger] g.contains_cell(c) && c.y < y ==> occupied@.contains(c),
                forall|c: Cell| #[trigger] g.contains_cell(c) && c.y == y && c.x < x
                    ==> occupied@.contains(c),
            decreases g.width - x,
        {
            let candidate = Cell { x, y };
            if !cells_contain(occupied, candidate) {
                return Some(candidate);
            }
            x = x + 1;
        }
        y = y + 1;
    }
    assert(forall|c: Cell| #[trigger] g.contains_cell(c) ==> occupied@.contains(c));
    None
}

} // verus!
