//! Conway's Game of Life on a bounded grid, with verified transition rules.

pub mod game;
pub mod rules;

pub use game::{state_of, Game, GameSize, Point};
pub use rules::State;
