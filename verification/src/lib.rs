//! The simulation core of a grid-based snake game.
//!
//! [`game::GameState`] owns the grid, the snake, the fruit, the status and the
//! clock, and advances on a fixed time step. Every operation is specified
//! against [`board::Board`], the mathematical model of a game in progress.

pub mod structs;
pub mod constants;
pub mod board;
pub mod counting;
pub mod sequences;
pub mod laws;
pub mod random;
pub mod snapshot;
pub mod game;
