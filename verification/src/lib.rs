//! A minimal real-time game runtime: a fixed-phase loop (input, update, draw)
//! over an ordered collection of polymorphic entities, with primitive
//! renderers and an intersection-based collision query.

pub mod display;
pub mod game;
pub mod input;
pub mod pong;
