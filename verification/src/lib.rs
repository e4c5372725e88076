//! A verified rules engine for Ultimate Tic-Tac-Toe: a 9-grid-of-9-cells
//! game where each move constrains the legal region of the next move.
//!
//! The engine owns the board state, derives the legal moves after each
//! play, and drives the turn/outcome state machine, with win detection
//! across the nine sub-grids and the meta-grid.
//!
//! Every play is validated: a move that is out of range, outside the
//! legal region, on an occupied cell, by the wrong side, or after the
//! game has ended is rejected with a distinct error and leaves the
//! engine untouched.  A sub-grid's won bit is recorded the moment a line
//! of it is completed, and a won sub-grid is closed to further play.

pub mod engine;
pub mod laws;
pub mod model;

pub use engine::{GameState, GridPosition, PlayError, UTTTGame};
