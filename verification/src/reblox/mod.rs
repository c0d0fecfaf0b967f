//! The playing field of a falling-block game.

pub mod block;
pub mod clock;
pub mod field;
pub mod grid;
pub mod pseudo_random;
