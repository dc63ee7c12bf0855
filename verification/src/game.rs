//! The game: a character, the obstacles it meets, and the session that runs
//! them.
//!
//! Coordinates are 16-bit. The parts that stand alone, the states of the
//! character and the obstacles, ask of their inputs only that the numbers
//! they make are representable. The character on screen and the world that
//! it runs through keep themselves where that always holds. Obstacles lie
//! within `HORIZON` of the origin, which is as far as a coordinate goes less
//! the room that a tick's scroll needs. The character can be set on every
//! surface from which its sprites can show it wherever it may come to. Being
//! well formed is an invariant of their types, so whoever holds a world can
//! tick it.

use vstd::prelude::*;

pub mod obstacles;
pub mod path;
pub mod red_hat_boy;
pub mod red_hat_boy_states;
pub mod state_machine;
pub mod walk;
pub mod world;

verus! {

/// The height of the playing field.
pub const HEIGHT: i16 = 600;

} // verus!
