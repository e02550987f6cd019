//! Rules engine for tic-tac-toe between two players: move validation and
//! application, and the verdict on a game state.

pub mod board;
pub mod game;
pub mod laws;
pub mod player;
