//! Core of a grid-based snake simulation: coordinate geometry, fixed-step
//! ticking, input-direction arbitration, snake movement, tail propagation,
//! collision detection, fruit placement and the game-over/restart/score
//! state machine.
//!
//! Rendering, window management and raw keyboard polling are left to the
//! embedding program; the simulation consumes only a set of pressed logical
//! directions and exposes grid coordinates and numeric scores.

pub mod fruit;
pub mod game;
pub mod grid;
pub mod sim;
pub mod snake;
