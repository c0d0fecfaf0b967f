//! Verified cores of a small collection of terminal games: the move
//! selection of a Reversi player, the playing field of a falling-block
//! game, and the crawl of a snake.

pub mod reblox;
pub mod rusthello;
pub mod snake;
