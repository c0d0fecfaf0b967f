//! Budgeted game-tree search for a Reversi player.

pub mod ai_player;
pub mod board;
pub mod heuristic;
pub mod jitter;
pub mod position;
pub mod score;
pub mod search;
