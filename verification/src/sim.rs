//! The simulation core: the snake chain, the per-tick pipeline (commit the
//! buffered direction, grow, move, detect food and collisions), food
//! bookkeeping, and the round reset that follows a collision.

use vstd::prelude::*;
use crate::direction::Direction;
use crate::food::cells_contain;
use crate::food::food_step;
use crate::food::respawn;
use crate::grid::Cell;
use crate::grid::Grid;

verus! {

/// The outcome of one simulation tick.
#[derive(Clone, Copy, PartialEq, Eq, Structural, Debug)]
pub enum MoveOutcome {
    Continued,
    AteFood,
    Collided,
}

/// The round of play. A collision hands the round to `GameOver` and the
/// reset hands it straight back, so the state at rest is always `Playing`.
#[derive(Clone, Copy, PartialEq, Eq, Structural, Debug)]
pub enum RoundState {
    Playing,
    GameOver,
}

/// The snake: an ordered chain of cells with the head at index 0, the
/// heading committed at the start of the current tick, and the buffered
/// direction request that the next tick will commit.
pub struct Snake {
    pub cells: Vec<Cell>,
    pub heading: Direction,
    pub pending: Direction,
}

/// The read model handed to a renderer once per frame.
pub struct Snapshot {
    pub cells: Vec<Cell>,
    pub food: Option<Cell>,
    pub round: RoundState,
}

/// The whole simulation: arena bounds, snake, the active food cell (absent
/// only between consumption and the next respawn), and the growth scheduled
/// by a meal, recorded as the cell the tail vacated on the tick that ate.
pub struct Simulation {
    pub grid: Grid,
    pub snake: Snake,
    pub food: Option<Cell>,
    pub growth: Option<Cell>,
    pub round: RoundState,
}

/// Column of the canonical two-cell start layout.
pub const SPAWN_X: i32 = 3;

/// Row of the head in the canonical start layout.
pub const SPAWN_HEAD_Y: i32 = 3;

/// Row of the tail in the canonical start layout.
pub const SPAWN_TAIL_Y: i32 = 2;

/// The head cell of the canonical start layout.
pub open spec fn spawn_head() -> Cell {
    Cell { x: SPAWN_X, y: SPAWN_HEAD_Y }
}

/// The tail cell of the canonical start layout.
pub open spec fn spawn_tail() -> Cell {
    Cell { x: SPAWN_X, y: SPAWN_TAIL_Y }
}

/// A valid chain fragment: every cell inside the grid, no two cells on the
/// same coordinates.
pub open spec fn cells_ok(g: Grid, cs: Seq<Cell>) -> bool {
    &&& forall|i: int| 0 <= i < cs.len() ==> g.contains_cell(#[trigger] cs[i])
    &&& forall|i: int, j: int| 0 <= i < j < cs.len() ==> cs[i] != cs[j]
}

impl Simulation {
    /// The cells the snake lays claim to: its chain plus the scheduled
    /// growth cell, which the chain reoccupies on the next tick. Food is
    /// never placed on these.
    pub open spec fn occupied_cells(self) -> Seq<Cell> {
        match self.growth {
            Some(gc) => self.snake.cells@.push(gc),
            None => self.snake.cells@,
        }
    }

    /// The simulation invariant: a well-formed arena that fits the start
    /// layout, a chain of at least two valid distinct cells, a scheduled
    /// growth cell (if any) inside the grid and off the chain, food (if
    /// any) inside the grid and off every claimed cell, and a round at
    /// rest in `Playing`.
    pub open spec fn wf(self) -> bool {
        &&& self.grid.wf()
        &&& SPAWN_X < self.grid.width
        &&& SPAWN_HEAD_Y < self.grid.height
        &&& self.snake.cells@.len() >= 2
        &&& cells_ok(self.grid, self.snake.cells@)
        &&& (self.growth matches Some(gc) ==> self.grid.contains_cell(gc)
            && !self.snake.cells@.contains(gc))
        &&& (self.food matches Some(f) ==> self.grid.contains_cell(f)
            && !self.occupied_cells().contains(f))
        &&& self.round == RoundState::Playing
    }

    /// The canonical start state over grid `g`: the fixed two-cell layout,
    /// no heading, no buffered request, no food and no scheduled growth.
    pub open spec fn is_start_state(self, g: Grid) -> bool {
        &&& self.grid == g
        &&& self.snake.cells@.len() == 2
        &&& self.snake.cells@[0] == spawn_head()
        &&& self.snake.cells@[1] == spawn_tail()
        &&& self.snake.heading is Unset
        &&& self.snake.pending is Unset
        &&& self.food is None
        &&& self.growth is None
        &&& self.round == RoundState::Playing
    }
}

/// The cell the head moves onto when the buffered heading is committed and
/// applied: one step from the head along that heading.
pub open spec fn step_target(pre: Simulation) -> Cell {
    let g = pre.occupied_cells();
    let h = pre.snake.pending;
    Cell { x: (g[0].x + h.dx()) as i32, y: (g[0].y + h.dy()) as i32 }
}

/// How one tick relates its pre-state to its post-state and outcome.
///
/// - With no direction requested yet the snake stays put and only absent
///   food is spawned.
/// - A step onto a wall or onto a claimed cell (the about-to-vacate tail
///   included, deliberately) collides and resets the round to the start
///   state.
/// - Otherwise a growth scheduled by the previous tick extends the chain at
///   the cell the tail vacated then, the chain shifts one step (each
///   segment to its predecessor's place), a step onto the food eats it and
///   schedules growth at the newly vacated tail cell, and absent food is
///   respawned off every claimed cell.
pub open spec fn tick_rel(pre: Simulation, post: Simulation, outcome: MoveOutcome) -> bool {
    let h = pre.snake.pending;
    if h is Unset {
        &&& outcome == MoveOutcome::Continued
        &&& post.grid == pre.grid
        &&& post.snake.cells@ == pre.snake.cells@
        &&& post.snake.heading == h
        &&& post.snake.pending == h
        &&& post.growth == pre.growth
        &&& post.round == RoundState::Playing
        &&& food_step(pre.grid, pre.food, post.occupied_cells(), post.food)
    } else {
        let g = pre.occupied_cells();
        let target = step_target(pre);
        if !pre.grid.contains_cell(target) || g.contains(target) {
            &&& outcome == MoveOutcome::Collided
            &&& post.is_start_state(pre.grid)
        } else {
            let ate = pre.food == Some(target);
            &&& outcome == (if ate { MoveOutcome::AteFood } else { MoveOutcome::Continued })
            &&& post.grid == pre.grid
            &&& post.snake.cells@ == seq![target] + g.drop_last()
            &&& post.snake.heading == h
            &&& post.snake.pending == h
            &&& post.growth == (if ate { Some(g.last()) } else { None::<Cell> })
            &&& post.round == RoundState::Playing
            &&& food_step(pre.grid, if ate { None } else { pre.food }, post.occupied_cells(),
                post.food)
        }
    }
}

/// The claimed cells of a well-formed simulation form a valid chain
/// fragment themselves: the growth cell is in bounds and off the chain.
proof fn lemma_occupied_cells_ok(s: Simulation)
    requires
        s.wf(),
    ensures
        cells_ok(s.grid, s.occupied_cells()),
        s.occupied_cells().len() >= 2,
{
    let cs = s.snake.cells@;
    let oc = s.occupied_cells();
    match s.growth {
        Some(gc) => {
            assert forall|i: int| 0 <= i < oc.len() implies s.grid.contains_cell(
                #[trigger] oc[i],
            ) by {
                if i < cs.len() {
                    assert(oc[i] == cs[i]);
                }
            }
            assert forall|i: int, j: int| 0 <= i < j < oc.len() implies oc[i] != oc[j] by {
                if j < cs.len() {
                    assert(oc[i] == cs[i] && oc[j] == cs[j]);
                } else {
                    assert(oc[i] == cs[i] && oc[j] == gc);
                    if cs[i] == gc {
                        assert(cs.contains(gc));
                    }
                }
            }
        },
        None => {},
    }
}

/// Self-collision is detected: whenever the buffered heading drives the
/// head onto a cell the chain claims (the about-to-vacate tail included,
/// deliberately), that tick collides and the round is reset to the
/// canonical start state.
pub proof fn lemma_self_collision_detected(pre: Simulation, post: Simulation, outcome: MoveOutcome)
    requires
        pre.wf(),
        tick_rel(pre, post, outcome),
        pre.snake.pending !is Unset,
        pre.occupied_cells().contains(step_target(pre)),
    ensures
        outcome == MoveOutcome::Collided,
        post.is_start_state(pre.grid),
{
}

/// Wall collision is detected: whenever the buffered heading drives the
/// head off the grid, that tick collides and the round is reset to the
/// canonical start state.
pub proof fn lemma_wall_collision_detected(pre: Simulation, post: Simulation, outcome: MoveOutcome)
    requires
        pre.wf(),
        tick_rel(pre, post, outcome),
        pre.snake.pending !is Unset,
        !pre.grid.contains_cell(step_target(pre)),
    ensures
        outcome == MoveOutcome::Collided,
        post.is_start_state(pre.grid),
{
}

/// The buffered heading is what the next tick commits and moves along:
/// on any tick that does not collide, the head steps exactly one cell
/// along the buffered direction. In particular a rejected reversal, which
/// leaves the buffer as it was, keeps the snake on its prior course.
pub proof fn lemma_buffered_course_followed(
    pre: Simulation,
    post: Simulation,
    outcome: MoveOutcome,
)
    requires
        pre.wf(),
        tick_rel(pre, post, outcome),
        pre.snake.pending !is Unset,
        outcome != MoveOutcome::Collided,
    ensures
        post.snake.heading == pre.snake.pending,
        post.snake.cells@[0].x == pre.occupied_cells()[0].x + pre.snake.pending.dx(),
        post.snake.cells@[0].y == pre.occupied_cells()[0].y + pre.snake.pending.dy(),
{
    lemma_occupied_cells_ok(pre);
}

/// Growth is deferred by exactly one tick: a tick that eats (with no
/// growth already scheduled) leaves the chain length unchanged, and the
/// following tick, unless it collides, extends the chain by exactly one
/// segment.
pub proof fn lemma_growth_deferred(
    s0: Simulation,
    s1: Simulation,
    s2: Simulation,
    o1: MoveOutcome,
    o2: MoveOutcome,
)
    requires
        s0.wf(),
        tick_rel(s0, s1, o1),
        s1.wf(),
        tick_rel(s1, s2, o2),
        s0.growth is None,
        o1 == MoveOutcome::AteFood,
        o2 != MoveOutcome::Collided,
    ensures
        s1.snake.cells@.len() == s0.snake.cells@.len(),
        s1.growth is Some,
        s2.snake.cells@.len() == s0.snake.cells@.len() + 1,
{
}

/// Food off every claimed cell is in particular off the chain itself.
proof fn lemma_food_off_chain(s: Simulation)
    requires
        s.food matches Some(f) ==> !s.occupied_cells().contains(f),
    ensures
        s.food matches Some(f) ==> !s.snake.cells@.contains(f),
{
    match s.food {
        Some(f) => {
            if s.snake.cells@.contains(f) {
                let i = choose|i: int|
                    0 <= i < s.snake.cells@.len() && s.snake.cells@[i] == f;
                assert(s.occupied_cells()[i] == f);
                assert(s.occupied_cells().contains(f));
            }
        },
        None => {},
    }
}

/// Shifting a valid chain behind a fresh head keeps it valid, and the old
/// tail cell is vacated: no shifted cell sits on it.
proof fn lemma_shift_ok(g: Grid, cs: Seq<Cell>, nh: Cell)
    requires
        cells_ok(g, cs),
        cs.len() >= 1,
        g.contains_cell(nh),
        !cs.contains(nh),
    ensures
        cells_ok(g, seq![nh] + cs.drop_last()),
        (seq![nh] + cs.drop_last()).len() == cs.len(),
        !(seq![nh] + cs.drop_last()).contains(cs.last()),
{
    let m = seq![nh] + cs.drop_last();
    assert(m.len() == cs.len());
    assert forall|i: int| 0 <= i < m.len() implies g.contains_cell(#[trigger] m[i]) by {
        if i > 0 {
            assert(m[i] == cs[i - 1]);
        }
    }
    assert forall|i: int, j: int| 0 <= i < j < m.len() implies m[i] != m[j] by {
        assert(m[j] == cs[j - 1]);
        if i == 0 {
            if m[0] == m[j] {
                assert(cs.contains(nh));
            }
        } else {
            assert(m[i] == cs[i - 1]);
        }
    }
    let t = cs.last();
    assert forall|i: int| 0 <= i < m.len() implies m[i] != t by {
        if i == 0 {
            if nh == t {
                assert(cs.contains(nh));
            }
        } else {
            assert(m[i] == cs[i - 1]);
        }
    }
    if m.contains(t) {
        let i = choose|i: int| 0 <= i < m.len() && m[i] == t;
        assert(m[i] != t);
    }
}

/// Copies a chain of cells, for snapshots and for handing the food
/// placement its occupied set.
fn copy_cells(cells: &Vec<Cell>) -> (r: Vec<Cell>)
    ensures
        r@ == cells@,
{
    let mut r: Vec<Cell> = Vec::new();
    let mut i: usize = 0;
    while i < cells.len()
        invariant
            0 <= i <= cells@.len(),
            r@ == cells@.subrange(0, i as int),
        decreases cells@.len() - i,
    {
        r.push(cells[i]);
        i = i + 1;
        assert(r@ =~= cells@.subrange(0, i as int));
    }
    assert(r@ =~= cells@);
    r
}

/// The chain after one step of movement: the new head in front, every other
/// segment in the previous position of its predecessor, the old tail
/// dropped.
fn shifted_cells(cells: &Vec<Cell>, new_head: Cell) -> (r: Vec<Cell>)
    requires
        cells@.len() >= 1,
    ensures
        r@ == seq![new_head] + cells@.drop_last(),
{
    let mut r: Vec<Cell> = Vec::new();
    r.push(new_head);
    let mut i: usize = 0;
    while i < cells.len() - 1
        invariant
            cells@.len() >= 1,
            0 <= i <= cells@.len() - 1,
            r@ == seq![new_head] + cells@.subrange(0, i as int),
        decreases cells@.len() - 1 - i,
    {
        r.push(cells[i]);
        i = i + 1;
        assert(r@ =~= seq![new_head] + cells@.subrange(0, i as int));
    }
    assert(r@ =~= seq![new_head] + cells@.drop_last());
    r
}

impl Simulation {
    /// Creates a simulation over a `width x height` arena with the snake in
    /// its canonical start layout, no food yet (the first tick spawns it)
    /// and no heading. Arenas too small to hold the start layout, the empty
    /// ones included, are refused at construction time.
    pub fn new(width: i32, height: i32) -> (r: Option<Simulation>)
        ensures
            r is Some <==> SPAWN_X < width && SPAWN_HEAD_Y < height,
            r matches Some(s) ==> s.wf() && s.is_start_state(Grid { width, height }),
    {
        if SPAWN_X < width && SPAWN_HEAD_Y < height {
            let mut cells: Vec<Cell> = Vec::new();
            cells.push(Cell { x: SPAWN_X, y: SPAWN_HEAD_Y });
            cells.push(Cell { x: SPAWN_X, y: SPAWN_TAIL_Y });
            Some(
                Simulation {
                    grid: Grid { width, height },
                    snake: Snake {
                        cells,
                        heading: Direction::Unset,
                        pending: Direction::Unset,
                    },
                    food: None,
                    growth: None,
                    round: RoundState::Playing,
                },
            )
        } else {
            None
        }
    }

    /// Buffers a direction request from the input layer. A request of
    /// `Unset`, or of the exact opposite of the committed heading, is
    /// silently ignored: this is the anti-reversal policy, not an error.
    /// Only the buffer changes; the latest accepted request before the next
    /// tick wins.
    pub fn request_direction(&mut self, d: Direction)
        requires
            old(self).wf(),
        ensures
            final(self).wf(),
            final(self).snake.pending == (if d !is Unset
                && d != old(self).snake.heading.spec_opposite() {
                d
            } else {
                old(self).snake.pending
            }),
            d == old(self).snake.heading.spec_opposite()
                ==> final(self).snake.pending == old(self).snake.pending,
            final(self).snake.cells@ == old(self).snake.cells@,
            final(self).snake.heading == old(self).snake.heading,
            final(self).grid == old(self).grid,
            final(self).food == old(self).food,
            final(self).growth == old(self).growth,
            final(self).round == old(self).round,
    {
        let ignored = matches!(d, Direction::Unset) || d == self.snake.heading.opposite();
        if !ignored {
            self.snake.pending = d;
        }
    }

    /// Copies the claimed cells into a vector, for the food placement.
    fn occupied_vec(&self) -> (r: Vec<Cell>)
        ensures
            r@ == self.occupied_cells(),
    {
        let mut r = copy_cells(&self.snake.cells);
        match self.growth {
            Some(gc) => {
                r.push(gc);
            },
            None => {},
        }
        r
    }

    /// Spawns food when none is active, off every claimed cell; food
    /// already on the board is left untouched. Leaves everything else
    /// unchanged.
    fn spawn_food_if_absent(&mut self)
        requires
            old(self).grid.wf(),
        ensures
            final(self).snake.cells@ == old(self).snake.cells@,
            final(self).snake.heading == old(self).snake.heading,
            final(self).snake.pending == old(self).snake.pending,
            final(self).grid == old(self).grid,
            final(self).growth == old(self).growth,
            final(self).round == old(self).round,
            food_step(old(self).grid, old(self).food, old(self).occupied_cells(), final(self).food),
    {
        if self.food.is_none() {
            let occ = self.occupied_vec();
            self.food = respawn(&self.grid, &occ);
        }
    }

    /// Tears the round down to the canonical start state: fresh two-cell
    /// snake, no heading, no buffered request, no food (the next tick
    /// respawns it) and no scheduled growth.
    fn reset_round(&mut self)
        requires
            old(self).grid.wf(),
            SPAWN_X < old(self).grid.width,
            SPAWN_HEAD_Y < old(self).grid.height,
        ensures
            final(self).wf(),
            final(self).is_start_state(old(self).grid),
    {
        let mut cells: Vec<Cell> = Vec::new();
        cells.push(Cell { x: SPAWN_X, y: SPAWN_HEAD_Y });
        cells.push(Cell { x: SPAWN_X, y: SPAWN_TAIL_Y });
        self.snake = Snake { cells, heading: Direction::Unset, pending: Direction::Unset };
        self.food = None;
        self.growth = None;
        self.round = RoundState::Playing;
    }

    /// Runs one full simulation tick: commits the buffered direction,
    /// applies a growth scheduled by the previous tick, moves the snake one
    /// step, detects wall and self collisions (resetting the round on
    /// either), detects a meal (scheduling growth at the vacated tail
    /// cell), and respawns absent food off every claimed cell.
    pub fn tick(&mut self) -> (outcome: MoveOutcome)
        requires
            old(self).wf(),
        ensures
            final(self).wf(),
            tick_rel(*old(self), *final(self), outcome),
            forall|i: int| 0 <= i < final(self).snake.cells@.len()
                ==> final(self).grid.contains_cell(#[trigger] final(self).snake.cells@[i]),
            forall|i: int, j: int| 0 <= i < j < final(self).snake.cells@.len()
                ==> final(self).snake.cells@[i] != final(self).snake.cells@[j],
            final(self).food matches Some(f)
                ==> final(self).grid.contains_cell(f)
                && !final(self).snake.cells@.contains(f),
            outcome == MoveOutcome::Collided ==> final(self).is_start_state(old(self).grid),
    {
        // Commit the buffered direction; rejection already happened at
        // request time, so this is a plain copy.
        self.snake.heading = self.snake.pending;
        let h = self.snake.heading;
        if matches!(h, Direction::Unset) {
            // No input yet this round: the snake stays put, but absent food
            // still spawns (this covers the round start).
            self.spawn_food_if_absent();
            proof {
                lemma_food_off_chain(*self);
            }
            return MoveOutcome::Continued;
        }
        proof {
            lemma_occupied_cells_ok(*old(self));
        }
        // Apply a growth scheduled by the previous tick's meal: the chain
        // reoccupies the cell its tail vacated then.
        match self.growth {
            Some(gc) => {
                self.snake.cells.push(gc);
                self.growth = None;
            },
            None => {},
        }
        assert(self.snake.cells@ =~= old(self).occupied_cells());
        let head = self.snake.cells[0];
        let new_head = match h {
            Direction::Up => Cell { x: head.x, y: head.y + 1 },
            Direction::Down => Cell { x: head.x, y: head.y - 1 },
            Direction::Left => Cell { x: head.x - 1, y: head.y },
            Direction::Right => Cell { x: head.x + 1, y: head.y },
            Direction::Unset => head,
        };
        assert(new_head == step_target(*old(self)));
        // Bounds check, then self-collision check against the pre-move
        // chain: the tail cell still counts as occupied here even though it
        // is about to be vacated.
        let hit_wall = !self.grid.in_bounds(new_head);
        let hit_self = cells_contain(&self.snake.cells, new_head);
        if hit_wall || hit_self {
            // The round goes to game over and resolves immediately: the
            // reset happens within this same pass.
            self.round = RoundState::GameOver;
            self.reset_round();
            return MoveOutcome::Collided;
        }
        // Shift: the new head in front, each segment to its predecessor's
        // previous place; remember the vacated tail cell for growth.
        proof {
            lemma_shift_ok(old(self).grid, old(self).occupied_cells(), new_head);
        }
        let len = self.snake.cells.len();
        let vacated = self.snake.cells[len - 1];
        let moved = shifted_cells(&self.snake.cells, new_head);
        self.snake.cells = moved;
        let ate = match self.food {
            Some(f) => f == new_head,
            None => false,
        };
        if ate {
            self.growth = Some(vacated);
            self.food = None;
        }
        self.spawn_food_if_absent();
        proof {
            lemma_food_off_chain(*self);
        }
        if ate {
            MoveOutcome::AteFood
        } else {
            MoveOutcome::Continued
        }
    }

    /// The read model: the ordered snake cells, the active food cell and
    /// the round state, copied out without touching the simulation.
    pub fn snapshot(&self) -> (r: Snapshot)
        ensures
            r.cells@ == self.snake.cells@,
            r.food == self.food,
            r.round == self.round,
    {
        Snapshot { cells: copy_cells(&self.snake.cells), food: self.food, round: self.round }
    }
}

} // verus!
