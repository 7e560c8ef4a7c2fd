//! The simulation core of a side-scrolling obstacle-avoidance game.
//!
//! A bird falls under gravity and jumps on request while pairs of pipes scroll
//! towards it. Everything is computed on integers: one length unit is the
//! distance covered in one time quantum at a speed of one, so a velocity
//! is a whole number of length units per tick.

use vstd::prelude::*;

pub mod bird;
pub mod config;
pub mod decimal;
pub mod game_over;
pub mod geometry;
pub mod heights;
pub mod high_score;
pub mod pipes;
pub mod scoreboard;
pub mod sim;

verus! {

/// What is added to a position in one tick.
#[derive(Clone, Copy, Debug, PartialEq, Eq, Structural)]
pub struct Velocity(pub geometry::Vec2);

/// The two states of the game.
#[derive(Clone, Copy, Debug, PartialEq, Eq, Structural)]
pub enum AppState {
    MainMenu,
    InGame,
}

} // verus!
