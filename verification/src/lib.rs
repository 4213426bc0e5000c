//! Unit coordination for a top-down tactical simulation, on integers.
//!
//! Every length, angle and duration in this crate is a whole number of
//! thousandths: of a world unit, of a degree, of a second. The rules are stated
//! over those integers and proved against their contracts:
//!
//! - [`plugins::cursor`] turns presses, drags and releases of the pointer into
//!   a selection of units and a move command;
//! - [`systems::movement`] moves units toward their destinations and apart
//!   from each other, inside the playing field;
//! - [`systems::rotation`] turns units toward where they are going, the
//!   shorter way round;
//! - [`simulation`] runs these in their fixed order, once per tick.
//!
//! A host application feeds pointer input and elapsed time in and draws what
//! comes out.

pub mod fixed;
pub mod util;
pub mod constants;
pub mod timer;
pub mod components;
pub mod plugins;
pub mod game;
pub mod systems;
pub mod simulation;
pub mod units;
