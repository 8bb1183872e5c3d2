//! A guideline-style falling-block engine together with a greedy move selector.
//!
//! The engine covers piece geometry, the playing field, rotation with wall
//! kicks, the seven-piece bag, and the game controller with gravity, lock
//! delay, hold, and scoring. The selector enumerates candidate placements for
//! the active piece, scores each resulting field, and commits the best one.

use vstd::prelude::*;

pub mod board;
pub mod bot;
pub mod evaluator;
pub mod game;
pub mod move_finder;
pub mod piece;
pub mod randomizer;
pub mod rotation;
pub mod score;

pub use board::{Board, Cell};
pub use bot::TetrisBot;
pub use game::Game;
pub use piece::{Piece, PieceType, Rotation};

verus! {

/// Number of columns of the playing field.
pub const BOARD_WIDTH: usize = 10;

/// Number of rows of the playing field, including the hidden rows at the top.
pub const BOARD_HEIGHT: usize = 22;

/// Number of rows that are shown to the player.
pub const VISIBLE_HEIGHT: usize = 20;

} // verus!
