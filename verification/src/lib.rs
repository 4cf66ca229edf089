//! A verified tic-tac-toe engine.
//!
//! The library models a 3x3 board whose cells are empty or owned by one of
//! two players, classifies boards as won, tied or still open, and computes
//! the game-theoretically optimal next move by exhaustive minimax search.

pub mod api;
pub mod board;
pub mod search;
