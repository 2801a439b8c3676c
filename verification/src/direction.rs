//! The four-way heading of the snake, plus the unset initial state, and the
//! opposite-direction relation used to forbid instant reversal.

use vstd::prelude::*;

verus! {

/// A heading for the snake. `Unset` is the state before the first direction
/// request of a round: the snake does not move while its heading is `Unset`.
#[derive(Clone, Copy, PartialEq, Eq, Structural, Debug)]
pub enum Direction {
    Unset,
    Up,
    Down,
    Left,
    Right,
}

impl Direction {
    /// The opposite of a heading; `Unset` is its own opposite.
    pub open spec fn spec_opposite(self) -> Direction {
        match self {
            Direction::Unset => Direction::Unset,
            Direction::Up => Direction::Down,
            Direction::Down => Direction::Up,
            Direction::Left => Direction::Right,
            Direction::Right => Direction::Left,
        }
    }

    /// Horizontal displacement of one step along this heading.
    pub open spec fn dx(self) -> int {
        match self {
            Direction::Left => -1,
            Direction::Right => 1,
            _ => 0,
        }
    }

    /// Vertical displacement of one step along this heading.
    pub open spec fn dy(self) -> int {
        match self {
            Direction::Down => -1,
            Direction::Up => 1,
            _ => 0,
        }
    }

    #[verifier::when_used_as_spec(spec_opposite)]
    pub fn opposite(self) -> (r: Direction)
        ensures
            r == self.spec_opposite(),
    {
        match self {
            Direction::Unset => Direction::Unset,
            Direction::Up => Direction::Down,
            Direction::Down => Direction::Up,
            Direction::Left => Direction::Right,
            Direction::Right => Direction::Left,
        }
    }
}

/// The opposite relation is total and self-inverse: taking the opposite twice
/// returns every heading, `Unset` included, to itself.
pub proof fn lemma_opposite_involutive(d: Direction)
    ensures
        d.spec_opposite().spec_opposite() == d,
{
}

} // verus!
