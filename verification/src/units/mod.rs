//! The kinds of unit.

pub mod skelly;
