//! Fixed values of the simulation, in thousandths.

pub mod constants;
pub mod plane;
pub mod units;
