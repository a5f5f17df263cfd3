//! A toroidal maze shooter: maze generation and the entity simulation.
//!
//! The library owns the rules of the game (geometry on a torus, the maze
//! and its wall buffer, the per-entity state machines, scheduling, hit
//! tests and scoring) and leaves drawing, sound and input to its caller.

pub mod config;
pub mod entities;
pub mod game_context;
pub mod maze;
pub mod video;
