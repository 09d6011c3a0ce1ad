//! Engine of the sliding fifteen puzzle: the board, its solvability rule,
//! tile moves, and the game's state machine.

pub mod board;
pub mod game;
