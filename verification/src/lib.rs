//! Turn-resolution engine of a grid-battle game against a scripted opponent:
//! two 10x10 boards of tile states, a random ship-placement generator, the
//! opponent's targeting strategy, a multi-phase turn state machine gated by an
//! injected clock, and a bounded feed of taunt texts.

pub mod battle;
pub mod board;
pub mod game;
pub mod placement;
mod rng;
pub mod targeting;
pub mod taunts;
