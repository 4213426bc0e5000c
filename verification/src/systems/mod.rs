//! The rules that run every tick.

pub mod bearing;
pub mod effects;
pub mod movement;
pub mod rotation;
pub mod spawn_plane;
pub mod spawn_unit;
