use snake_core::Cell;
use snake_core::Direction;
use snake_core::Grid;
use snake_core::MoveOutcome;
use snake_core::RoundState;
use snake_core::Simulation;
use snake_core::food::respawn;
use snake_core::sim::Snake;
use snake_core::sim::SPAWN_HEAD_Y;
use snake_core::sim::SPAWN_TAIL_Y;
use snake_core::sim::SPAWN_X;

fn sim_10x10() -> Simulation {
    Simulation::new(10, 10).expect("a 10x10 arena fits the start layout")
}

fn cell(x: i32, y: i32) -> Cell {
    Cell { x, y }
}

/// A hand-built, well-formed mid-game state, for scenarios that need a
/// particular snake or food position.
fn state(cells: Vec<Cell>, heading: Direction, pending: Direction, food: Option<Cell>) -> Simulation {
    Simulation {
        grid: Grid { width: 10, height: 10 },
        snake: Snake { cells, heading, pending },
        food,
        growth: None,
        round: RoundState::Playing,
    }
}

#[test]
fn opposite_is_self_inverse() {
    let all = [
        Direction::Unset,
        Direction::Up,
        Direction::Down,
        Direction::Left,
        Direction::Right,
    ];
    for d in all {
        assert_eq!(d.opposite().opposite(), d);
    }
    assert_eq!(Direction::Up.opposite(), Direction::Down);
    assert_eq!(Direction::Left.opposite(), Direction::Right);
    assert_eq!(Direction::Unset.opposite(), Direction::Unset);
}

#[test]
fn grid_rejects_empty_arenas() {
    assert!(Grid::new(0, 5).is_none());
    assert!(Grid::new(5, 0).is_none());
    assert!(Grid::new(-1, 5).is_none());
    let g = Grid::new(10, 10).expect("positive extents are accepted");
    assert_eq!(g.width, 10);
    assert_eq!(g.height, 10);
}

#[test]
fn construction_rejects_arenas_too_small_for_spawn() {
    assert!(Simulation::new(0, 0).is_none());
    assert!(Simulation::new(3, 10).is_none());
    assert!(Simulation::new(10, 3).is_none());
    assert!(Simulation::new(4, 4).is_some());
    assert!(Simulation::new(i32::MAX, i32::MAX).is_some());
}

#[test]
fn start_state_is_canonical() {
    let s = sim_10x10();
    let snap = s.snapshot();
    assert_eq!(snap.cells, vec![cell(SPAWN_X, SPAWN_HEAD_Y), cell(SPAWN_X, SPAWN_TAIL_Y)]);
    assert_eq!(snap.food, None);
    assert_eq!(snap.round, RoundState::Playing);
    assert_eq!(s.snake.heading, Direction::Unset);
}

#[test]
fn first_tick_without_input_only_spawns_food() {
    let mut s = sim_10x10();
    let o = s.tick();
    assert_eq!(o, MoveOutcome::Continued);
    let snap = s.snapshot();
    // The snake has not moved, but the absent food has been spawned.
    assert_eq!(snap.cells, vec![cell(3, 3), cell(3, 2)]);
    let f = snap.food.expect("food spawns on the first tick");
    assert!(0 <= f.x && f.x < 10 && 0 <= f.y && f.y < 10);
    assert!(!snap.cells.contains(&f));
}

#[test]
fn first_tick_moves_head_up() {
    let mut s = sim_10x10();
    s.request_direction(Direction::Up);
    let o = s.tick();
    assert_eq!(o, MoveOutcome::Continued);
    // Head (3,3) -> (3,4); the tail takes the head's old place.
    assert_eq!(s.snapshot().cells, vec![cell(3, 4), cell(3, 3)]);
}

#[test]
fn unset_request_is_ignored() {
    let mut s = sim_10x10();
    s.request_direction(Direction::Unset);
    let o = s.tick();
    assert_eq!(o, MoveOutcome::Continued);
    assert_eq!(s.snapshot().cells, vec![cell(3, 3), cell(3, 2)]);
}

#[test]
fn reversal_request_is_ignored() {
    // Food pinned in a far corner, off the snake's path, so every tick
    // below is a plain move.
    let mut s = state(
        vec![cell(3, 3), cell(3, 2)],
        Direction::Unset,
        Direction::Unset,
        Some(cell(9, 9)),
    );
    s.request_direction(Direction::Up);
    assert_eq!(s.tick(), MoveOutcome::Continued);
    assert_eq!(s.snapshot().cells, vec![cell(3, 4), cell(3, 3)]);
    // Down is the exact opposite of the committed heading: ignored, the
    // snake continues upward on the next tick.
    s.request_direction(Direction::Down);
    assert_eq!(s.snake.heading, Direction::Up);
    assert_eq!(s.tick(), MoveOutcome::Continued);
    assert_eq!(s.snapshot().cells, vec![cell(3, 5), cell(3, 4)]);
}

#[test]
fn latest_valid_request_wins() {
    let mut s = sim_10x10();
    s.request_direction(Direction::Up);
    s.request_direction(Direction::Right);
    assert_eq!(s.tick(), MoveOutcome::Continued);
    assert_eq!(s.snapshot().cells, vec![cell(4, 3), cell(3, 3)]);
}

#[test]
fn left_wall_collision_at_x_zero() {
    // Food pinned off row 3 so the walk to the wall is not interrupted by
    // a meal.
    let mut s = state(
        vec![cell(3, 3), cell(3, 2)],
        Direction::Unset,
        Direction::Unset,
        Some(cell(9, 9)),
    );
    s.request_direction(Direction::Left);
    assert_eq!(s.tick(), MoveOutcome::Continued); // (2,3)
    assert_eq!(s.tick(), MoveOutcome::Continued); // (1,3)
    assert_eq!(s.tick(), MoveOutcome::Continued); // (0,3)
    assert_eq!(s.snapshot().cells, vec![cell(0, 3), cell(1, 3)]);
    // One more step left would need x = -1: a wall collision.
    assert_eq!(s.tick(), MoveOutcome::Collided);
}

#[test]
fn collision_resets_round_to_start_state() {
    // Food pinned off row 3 so the walk to the wall is not interrupted by
    // a meal.
    let mut s = state(
        vec![cell(3, 3), cell(3, 2)],
        Direction::Unset,
        Direction::Unset,
        Some(cell(0, 9)),
    );
    s.request_direction(Direction::Right);
    for expected_x in 4..10 {
        assert_eq!(s.tick(), MoveOutcome::Continued);
        assert_eq!(s.snapshot().cells[0], cell(expected_x, 3));
    }
    assert_eq!(s.tick(), MoveOutcome::Collided); // x = 10 is off the grid
    let snap = s.snapshot();
    assert_eq!(snap.cells, vec![cell(SPAWN_X, SPAWN_HEAD_Y), cell(SPAWN_X, SPAWN_TAIL_Y)]);
    assert_eq!(snap.food, None);
    assert_eq!(snap.round, RoundState::Playing);
    assert_eq!(s.snake.heading, Direction::Unset);
    assert_eq!(s.snake.pending, Direction::Unset);
}

#[test]
fn head_into_body_collides() {
    // A C-shaped snake; moving up from (3,3) runs into (3,4).
    let mut s = state(
        vec![cell(3, 3), cell(4, 3), cell(4, 4), cell(3, 4)],
        Direction::Left,
        Direction::Up,
        None,
    );
    assert_eq!(s.tick(), MoveOutcome::Collided);
    let snap = s.snapshot();
    assert_eq!(snap.cells, vec![cell(3, 3), cell(3, 2)]);
}

#[test]
fn stepping_onto_vacating_tail_collides() {
    // The tail cell still counts as occupied during the self-collision
    // check, even though it is about to be vacated.
    let mut s = state(
        vec![cell(3, 3), cell(3, 2)],
        Direction::Unset,
        Direction::Down,
        None,
    );
    assert_eq!(s.tick(), MoveOutcome::Collided);
}

#[test]
fn eating_respawns_food_and_defers_growth() {
    let mut s = state(
        vec![cell(3, 3), cell(3, 2)],
        Direction::Unset,
        Direction::Unset,
        Some(cell(3, 4)),
    );
    s.request_direction(Direction::Up);
    let o = s.tick();
    assert_eq!(o, MoveOutcome::AteFood);
    let snap = s.snapshot();
    // Chain length is unchanged on the tick that ate.
    assert_eq!(snap.cells, vec![cell(3, 4), cell(3, 3)]);
    // The food was respawned within the same tick, off the snake.
    let f = snap.food.expect("food respawns on the tick it is eaten");
    assert!(!snap.cells.contains(&f));
    assert_ne!(f, cell(3, 2)); // not on the cell the chain will regrow onto
    // The next tick extends the chain by exactly one segment, at the cell
    // the tail vacated on the eating tick. (The randomly respawned food
    // may happen to sit at (3,5), so the outcome may be another meal.)
    let o2 = s.tick();
    assert_ne!(o2, MoveOutcome::Collided);
    let snap_after = s.snapshot();
    assert_eq!(snap_after.cells, vec![cell(3, 5), cell(3, 4), cell(3, 3)]);
}

#[test]
fn respawn_returns_the_only_free_cell() {
    let g = Grid { width: 2, height: 2 };
    let occupied = vec![cell(0, 0), cell(0, 1), cell(1, 0)];
    for _ in 0..20 {
        assert_eq!(respawn(&g, &occupied), Some(cell(1, 1)));
    }
}

#[test]
fn respawn_on_full_board_returns_none() {
    let g = Grid { width: 2, height: 2 };
    let occupied = vec![cell(0, 0), cell(0, 1), cell(1, 0), cell(1, 1)];
    assert_eq!(respawn(&g, &occupied), None);
}

#[test]
fn respawn_avoids_occupied_cells() {
    let g = Grid { width: 4, height: 4 };
    let occupied = vec![cell(0, 0), cell(1, 1), cell(2, 2), cell(3, 3)];
    for _ in 0..50 {
        let f = respawn(&g, &occupied).expect("free cells exist");
        assert!(0 <= f.x && f.x < 4 && 0 <= f.y && f.y < 4);
        assert!(!occupied.contains(&f));
    }
}

#[test]
fn cells_stay_in_bounds_and_distinct_over_a_long_run() {
    let mut s = sim_10x10();
    // A scripted tour: right along the bottom rows, up, back left, and so
    // on; collisions reset the round, meals grow the chain, and after every
    // tick the snapshot must show only in-bounds, pairwise distinct cells.
    let script = [
        Direction::Right,
        Direction::Up,
        Direction::Right,
        Direction::Down,
        Direction::Right,
        Direction::Up,
        Direction::Left,
        Direction::Up,
        Direction::Right,
        Direction::Down,
    ];
    for round in 0..10 {
        for d in script {
            s.request_direction(d);
            for _ in 0..(round % 4) + 1 {
                let o = s.tick();
                let snap = s.snapshot();
                for c in &snap.cells {
                    assert!(0 <= c.x && c.x < 10 && 0 <= c.y && c.y < 10);
                }
                for i in 0..snap.cells.len() {
                    for j in (i + 1)..snap.cells.len() {
                        assert_ne!(snap.cells[i], snap.cells[j]);
                    }
                }
                if o != MoveOutcome::Collided {
                    if let Some(f) = snap.food {
                        assert!(!snap.cells.contains(&f));
                    }
                }
            }
        }
    }
}

#[test]
fn snapshot_does_not_mutate() {
    let mut s = sim_10x10();
    s.request_direction(Direction::Right);
    s.tick();
    let a = s.snapshot();
    let b = s.snapshot();
    assert_eq!(a.cells, b.cells);
    assert_eq!(a.food, b.food);
    assert_eq!(a.round, b.round);
}
