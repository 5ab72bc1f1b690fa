//! A playground of small verified pieces around one centerpiece: a
//! rule-validated sudoku engine whose every mutation is checked against the
//! row, column, and block rules before it touches the board.
//!
//! The companions are small and self-contained: a chessboard, a game-of-life
//! simulation, rotation ciphers, a walking turtle, and a few other exercises.

pub mod animals;
pub mod cbool;
pub mod chessboard;
pub mod ciphers;
pub mod conway;
pub mod dates;
pub mod facts;
pub mod grids;
pub mod hemisphere;
pub mod planets;
pub mod sudoku;
mod text;
pub mod turtle;
