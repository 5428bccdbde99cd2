//! A deterministic falling-block puzzle engine: piece geometry and rotation,
//! board occupancy and line clearing, and the per-tick game state machine.

pub mod board;
pub mod coord;
pub mod game_renderer;
pub mod pieces;
pub mod game;
pub mod rng;
