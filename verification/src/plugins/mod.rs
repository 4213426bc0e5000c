//! What the pointer and the animation player drive.

pub mod animation;
pub mod cursor;
