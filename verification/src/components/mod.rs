//! What a unit is made of.

pub mod effects;
pub mod mechanics;
