//! A verified core for a grid-of-rooms dungeon crawler.
//!
//! The dungeon is an infinite grid of lazily generated rooms connected by
//! doors. The library proves the structural invariants of the world: door
//! symmetry between adjacent rooms, stability of a room's door set, distinct
//! enemy positions, and in-bounds player movement. Rendering and input live
//! outside the library.

pub mod config;
pub mod consts;
pub mod controller;
pub mod enemy;
pub mod errors;
pub mod game;
pub mod helper;
pub mod laws;
pub mod minimap;
pub mod player;
pub mod room;
pub mod store;
mod rng;

pub use consts::{Door, Position};
pub use errors::DungeonError;
