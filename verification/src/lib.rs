//! Authoritative core of a 2D multiplayer arena game: a fixed-point physics
//! world, entity/bullet/obstacle registries, collision-driven scoring, AI
//! target seeking, and the line-based client command protocol.
//!
//! Coordinates are held in integer milliunits (one arena unit = 1000
//! milliunits) and time in simulation ticks, so every rule of the game is
//! stated and proved over plain integers.

pub mod app_defines;
pub mod ball;
pub mod bullet;
pub mod client_handler;
pub mod entities;
pub mod game_logic;
pub mod game_management;
pub mod obstacles;
pub mod physics;
mod rng;
pub mod server_entity;
pub mod server_thread;
pub mod types;
