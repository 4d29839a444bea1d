//! Simulation core of a brick-breaking arcade game.
//!
//! Lengths are whole numbers of sub-units and times are whole numbers of
//! ticks, so that every rule of the game is exact integer arithmetic.

pub mod component;
pub mod flow;
pub mod game;
pub mod geometry;
pub mod query;
pub mod store;
pub mod system;
pub mod utils;
pub mod world;

