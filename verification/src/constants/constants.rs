//! Heights and sizes of the selection visuals.

use vstd::prelude::*;

verus! {

/// Height at which every grounded unit stands.
pub const GROUND_LEVEL: i64 = 7_750;

/// Lower height of the selection box.
pub const SELECTION_Y1: i64 = GROUND_LEVEL;

/// Upper height of the selection box.
pub const SELECTION_Y2: i64 = GROUND_LEVEL + 200;

/// Height of the outline that confirms a selection.
pub const CONFIRMED_BOX_LEVEL: i64 = GROUND_LEVEL + 300;

/// How far the drag box floats above the points it spans.
pub const DRAG_BOX_LIFT: i64 = 250;

/// Half the width of a line of the confirmation outline.
pub const THICKNESS_OF_SELECTION_LINES: i64 = 50;

/// Length of one fade of the confirmation outline.
pub const AFTER_SELECTION_BLINK_DURATION: i64 = 80;

/// What the confirmation outline adds to the elapsed time at every step of its fade.
pub const AFTER_SELECTION_BLINK_SPEED: i64 = 10;

/// How often the confirmation outline fades out before it removes itself.
pub const AFTER_SELECTION_BLINKS: usize = 2;

/// Ring radius of the highlight under a selected unit.
pub const SELECTION_CONFIRMED_BOX_RADIUS: i64 = 100;

} // verus!
