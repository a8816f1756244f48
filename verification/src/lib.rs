//! The simulation core of a side-scrolling reflex game played on a character grid.
//!
//! A bird falls under gravity and is kept aloft by flaps; walls scroll in from
//! the right and leave a gap to fly through. Everything here is deterministic
//! integer arithmetic: continuous quantities are fixed-point numbers counted
//! in `UNITS_PER_CELL`-ths of a grid cell, so each tick has an exact result.
//! The terminal, the keyboard and the clock belong to the program around this
//! library.

mod chance;
pub mod input;
pub mod obstacles;
pub mod pacing;
pub mod player;
pub mod screen;
pub mod session;
pub mod units;
pub mod wall;
