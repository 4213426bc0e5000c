//! Distances that govern how units move.

use vstd::prelude::*;

verus! {

/// A unit has arrived when it is closer than this to its destination on every axis.
pub const ARRIVAL_TOLERANCE: i64 = 500;

/// Units closer than this on every axis push each other apart.
pub const SOCIAL_DISTANCE: i64 = 1_500;

} // verus!
