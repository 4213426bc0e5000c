//! The unit record and its parts.

use vstd::prelude::*;
use crate::fixed::within_limit;
use crate::timer::Timer;
use crate::util::Vec3;

verus! {

/// The point a unit travels to.
#[derive(Clone, Copy, Debug, PartialEq, Eq, Structural)]
pub struct Destination(pub Vec3);

/// Two angles in thousandths of a degree. `current` is where a unit faces.
/// `desired` is the bearing from the unit to its destination, as of the last
/// step that the unit turned.
#[derive(Clone, Copy, Debug, PartialEq, Eq, Structural)]
pub struct Direction {
    pub desired: i64,
    pub current: i64,
}

/// Marks a unit that belongs to the current selection.
#[derive(Clone, Copy, Debug, PartialEq, Eq, Structural)]
pub struct Selected;

/// Marks a unit that still turns toward its destination.
#[derive(Clone, Copy, Debug, PartialEq, Eq, Structural)]
pub struct Rotating;

/// Marks a unit that a drag of the pointer can select.
#[derive(Clone, Copy, Debug, PartialEq, Eq, Structural)]
pub struct Pickable;

/// Thousandths of a world unit per second.
#[derive(Clone, Copy, Debug, PartialEq, Eq, Structural)]
pub struct MovementSpeed {
    pub value: i64,
}

/// Thousandths of a degree per second.
#[derive(Clone, Copy, Debug, PartialEq, Eq, Structural)]
pub struct RotationSpeed {
    pub value: i64,
}

/// Time left to something that removes itself.
#[derive(Clone, Copy, Debug)]
pub struct Lifetime {
    pub timer: Timer,
}

/// One unit of the simulation. A part that the unit does not have is `None`.
#[derive(Clone, Copy, Debug, PartialEq, Eq)]
pub struct Unit {
    /// Names the unit. The selection goes by names, and a unit that looks
    /// for its neighbours passes over every entry of its own name.
    pub id: u64,
    pub position: Vec3,
    pub direction: Direction,
    pub movement_speed: Option<MovementSpeed>,
    pub rotation_speed: Option<RotationSpeed>,
    pub destination: Option<Destination>,
    pub rotating: Option<Rotating>,
    pub selected: Option<Selected>,
    pub pickable: Option<Pickable>,
}

impl Unit {
    /// A pickable unit at `position` that stands still, faces along the X axis
    /// and has neither destination nor selection.
    pub fn new(id: u64, position: Vec3, movement_speed: i64, rotation_speed: i64) -> (unit: Unit)
        ensures
            unit == (Unit {
                id,
                position,
                direction: Direction { desired: 0, current: 0 },
                movement_speed: Some(MovementSpeed { value: movement_speed }),
                rotation_speed: Some(RotationSpeed { value: rotation_speed }),
                destination: None,
                rotating: None,
                selected: None,
                pickable: Some(Pickable),
            }),
    {
        Unit {
            id,
            position,
            direction: Direction { desired: 0, current: 0 },
            movement_speed: Some(MovementSpeed { value: movement_speed }),
            rotation_speed: Some(RotationSpeed { value: rotation_speed }),
            destination: None,
            rotating: None,
            selected: None,
            pickable: Some(Pickable),
        }
    }

    /// Every coordinate, angle and speed of the unit lies in `[-LIMIT, LIMIT]`.
    pub open spec fn within_limit(self) -> bool {
        &&& self.position.within_limit()
        &&& within_limit(self.direction.desired as int)
        &&& within_limit(self.direction.current as int)
        &&& (self.movement_speed matches Some(speed) ==> within_limit(speed.value as int))
        &&& (self.rotation_speed matches Some(speed) ==> within_limit(speed.value as int))
        &&& (self.destination matches Some(destination) ==> destination.0.within_limit())
    }

    /// Whether every coordinate, angle and speed of the unit lies in `[-LIMIT, LIMIT]`.
    pub fn is_within_limit(&self) -> (within: bool)
        ensures
            within == self.within_limit(),
    {
        let speed_fits = match self.movement_speed {
            Some(speed) => crate::fixed::is_within_limit(speed.value),
            None => true,
        };
        let turn_fits = match self.rotation_speed {
            Some(speed) => crate::fixed::is_within_limit(speed.value),
            None => true,
        };
        let destination_fits = match self.destination {
            Some(destination) => destination.0.is_within_limit(),
            None => true,
        };
        self.position.is_within_limit() && crate::fixed::is_within_limit(self.direction.desired)
            && crate::fixed::is_within_limit(self.direction.current) && speed_fits && turn_fits
            && destination_fits
    }
}

/// Every unit of `units` is within the limit, and there are at most `u32::MAX` of them.
pub open spec fn world_within_limit(units: Seq<Unit>) -> bool {
    &&& units.len() <= u32::MAX
    &&& forall|i: int| 0 <= i < units.len() ==> (#[trigger] units[i]).within_limit()
}

/// Whether `units` is a world that the steering and heading rules accept.
pub fn is_world_within_limit(units: &Vec<Unit>) -> (within: bool)
    ensures
        within == world_within_limit(units@),
{
    if units.len() > 0xFFFF_FFFF {
        return false;
    }
    let mut i: usize = 0;
    while i < units.len()
        invariant
            i <= units.len(),
            forall|k: int| 0 <= k < i ==> (#[trigger] units@[k]).within_limit(),
        decreases units.len() - i,
    {
        if !units[i].is_within_limit() {
            return false;
        }
        i += 1;
    }
    true
}

} // verus!
