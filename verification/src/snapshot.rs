use vstd::prelude::*;
use crate::board::Board;
use crate::structs::{Direction, State, Vector};

verus! {

/// Everything that decides how a game goes on, as plain values: a game can
/// be written down as a snapshot and taken up again from it.
#[derive(Clone, Debug, PartialEq, Eq)]
pub struct Snapshot {
    /// The dimensions of the grid.
    pub dimensions: Vector,
    /// The position of the snake's head.
    pub head_position: Vector,
    /// The positions of the snake's tail parts, the newest first.
    pub tail_positions: Vec<Vector>,
    /// The position of the fruit.
    pub fruit_position: Vector,
    /// The direction of movement of the snake.
    pub movement_direction: Direction,
    /// The next direction of movement of the snake.
    pub queued_direction: Option<Direction>,
    /// The current state of the game.
    pub state: State,
    /// The time elapsed since the last update.
    pub ms_since_last_update: usize,
}

impl View for Snapshot {
    type V = Board;

    open spec fn view(&self) -> Board {
        Board {
            dimensions: self.dimensions,
            head: self.head_position,
            tail: self.tail_positions@,
            fruit: self.fruit_position,
            direction: self.movement_direction,
            queued: self.queued_direction,
            status: self.state,
            clock: self.ms_since_last_update as nat,
        }
    }
}

} // verus!
