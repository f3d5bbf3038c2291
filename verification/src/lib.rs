//! Rules engine for a two-player wall-placement race game on a 9×9 board.
//!
//! The engine owns the board state, resolves pawn moves (including jumps
//! and diagonal side-steps), validates fence placements, enumerates legal
//! moves and applies or reverts validated moves.

pub mod game;
