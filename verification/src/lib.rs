//! A verified model of a grid-based snake game.
//!
//! The library owns the simulation core of the game: the snake body,
//! movement and collision rules, the bounded input queue, and the
//! growth bookkeeping that follows eating food. Rendering and window
//! plumbing live outside the library; they only read the state exposed
//! here and feed directions in.

use vstd::prelude::*;

pub mod body;
pub mod model;
pub mod game;
mod rng;

verus! {

/// Side length of the square playing grid, in cells.
pub const GRID_SIZE: u32 = 15;

} // verus!
