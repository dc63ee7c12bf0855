//! Simulation core of a side-scrolling runner.
//!
//! The crate holds the rules of the game and nothing else: an animated
//! character driven by a typed state machine, obstacles that scroll past it,
//! the generator that lays them out, the session that ties a run together,
//! and the clock that paces it. Drawing, sound, input capture and asset
//! loading belong to the host, which hands plain values in and performs the
//! effects that the core hands back.

pub mod engine;
pub mod game;
pub mod segments;
