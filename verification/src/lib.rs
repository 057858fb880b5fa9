//! A deterministic variant of rock-paper-scissors with five hand shapes.
//!
//! Two players follow fixed rules for choosing their next shape, so a whole
//! match is a function of the two opening shapes and the number of turns. The
//! engine in [`game`] plays such a match, jumping to the final score as soon
//! as the pair of shapes is known to repeat, and is proved to reach the score
//! that playing every single turn would give.

pub mod game;
pub mod player;
pub mod rules;
pub mod shape;
pub mod utils;
