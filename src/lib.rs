//! Simulation core of a two-paddle Pong game.
//!
//! Coordinates and velocities are fixed-point integers: one field unit is
//! `UNIT` steps, so a velocity of `UNIT` moves an entity by one unit per tick.

pub mod entity;
pub mod game;
pub mod input;

pub use entity::{Entity, EntityModel, UNIT};
pub use game::{Game, GameModel, LIMIT, PADDLE_SPEED, SERVE_DX, SERVE_DY};
pub use input::{Key, KeySet};
