use vstd::prelude::*;

verus! {

/// A cell coordinate on the grid: `x` counts columns from the left, `y` counts
/// rows from the top.
#[derive(Copy, Clone, Debug, PartialEq, Eq, Structural)]
pub struct Vector {
    pub x: usize,
    pub y: usize,
}

/// Represents a direction of movement.
#[derive(Copy, Clone, Debug, PartialEq, Eq, Structural)]
pub enum Direction {
    /// Upwards: towards row 0.
    Up,
    /// Downwards: towards the last row.
    Down,
    /// Rightwards: towards the last column.
    Right,
    /// Leftwards: towards column 0.
    Left,
}

impl Direction {
    /// The direction that points the other way.
    pub open spec fn spec_opposite(self) -> Direction {
        match self {
            Direction::Up => Direction::Down,
            Direction::Down => Direction::Up,
            Direction::Right => Direction::Left,
            Direction::Left => Direction::Right,
        }
    }

    /// The direction that points the other way.
    #[verifier::when_used_as_spec(spec_opposite)]
    pub fn opposite(self) -> (reversed: Direction)
        ensures
            reversed == self.spec_opposite(),
    {
        match self {
            Direction::Up => Direction::Down,
            Direction::Down => Direction::Up,
            Direction::Right => Direction::Left,
            Direction::Left => Direction::Right,
        }
    }
}

/// Represents the state of the current game.
#[derive(Copy, Clone, Debug, PartialEq, Eq, Structural)]
pub enum State {
    /// The game is in progress.
    Running,
    /// The game has been won: the snake ate the fruit and no tile was left
    /// for the next one.
    Won,
    /// The game has been lost: the snake ran into the edge of the grid or
    /// into itself.
    Lost,
}

/// Represents a tile on the grid.
#[derive(Copy, Clone, Debug, PartialEq, Eq, Structural)]
pub struct Tile {
    /// The position of the tile.
    pub position: Vector,
    /// Whether the tile is occupied by something.
    pub is_occupied: bool,
}

/// Why a game could not be set up.
#[derive(Copy, Clone, Debug, PartialEq, Eq, Structural)]
pub enum ConstructionError {
    /// The grid has fewer than two tiles: there is no room for both the
    /// snake's head and a fruit.
    TooSmall,
    /// The number of tiles does not fit in a `usize`.
    TooLarge,
}

} // verus!
