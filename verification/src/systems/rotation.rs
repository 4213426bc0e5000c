//! Turning a unit toward its destination.
//!
//! A unit turns while it has a rotation speed, a destination and the
//! `Rotating` mark. Each paced tick moves its facing angle along the shorter arc
//! toward the bearing of the destination; once the two agree to the nearest
//! degree the mark is taken away and the unit rests.

use vstd::prelude::*;
use crate::components::mechanics::world_within_limit;
use crate::components::mechanics::Direction;
use crate::components::mechanics::Unit;
use crate::fixed::divide;
use crate::fixed::nearest_whole;
use crate::fixed::quotient;
use crate::fixed::round_to_whole;
use crate::game::Game;
use crate::systems::bearing::bearing;
use crate::systems::bearing::bearing_between;
use crate::systems::bearing::FULL_TURN;
use crate::systems::bearing::HALF_TURN;

verus! {

/// Which way to turn: clockwise lowers the angle, counter-clockwise raises it.
#[derive(Clone, Copy, Debug, PartialEq, Eq, Structural)]
pub enum RotationDirection {
    CW,
    CCW,
}

/// The way to turn from `current` to `desired`: clockwise where `desired` is
/// less than half a turn below `current`, or at least half a turn above it, or
/// exactly half a turn away, or equal to it; counter-clockwise otherwise.
pub open spec fn heading(desired: int, current: int) -> RotationDirection {
    if desired < current {
        if current - desired <= HALF_TURN {
            RotationDirection::CW
        } else {
            RotationDirection::CCW
        }
    } else if current < desired {
        if desired - current < HALF_TURN {
            RotationDirection::CCW
        } else {
            RotationDirection::CW
        }
    } else {
        RotationDirection::CW
    }
}

/// How far a clockwise turn goes from `current` to reach `desired`.
pub open spec fn clockwise_arc(desired: int, current: int) -> int {
    (current - desired) % (FULL_TURN as int)
}

/// How far a counter-clockwise turn goes from `current` to reach `desired`.
pub open spec fn counter_clockwise_arc(desired: int, current: int) -> int {
    (desired - current) % (FULL_TURN as int)
}

/// How far a unit turns in `delta_ms` milliseconds at `speed`.
pub open spec fn turn_step(speed: int, delta_ms: int) -> int {
    quotient(speed * delta_ms, 1000)
}

/// An angle brought back after a step: a full turn or more becomes zero, less
/// than zero becomes a full turn.
pub open spec fn wrapped(angle: int) -> int {
    if angle >= FULL_TURN {
        0
    } else if angle < 0 {
        FULL_TURN as int
    } else {
        angle
    }
}

/// The facing angle after one step from `current` toward `desired`.
pub open spec fn turned(current: int, desired: int, speed: int, delta_ms: int) -> int {
    match heading(desired, current) {
        RotationDirection::CW => wrapped(current - turn_step(speed, delta_ms)),
        RotationDirection::CCW => wrapped(current + turn_step(speed, delta_ms)),
    }
}

/// Two angles agree to the nearest degree.
pub open spec fn aligned(angle: int, desired: int) -> bool {
    nearest_whole(angle) == nearest_whole(desired)
}

/// Whether the unit is turning: it has a rotation speed, a destination and
/// the `Rotating` mark.
pub open spec fn turns(unit: Unit) -> bool {
    unit.rotation_speed is Some && unit.destination is Some && unit.rotating is Some
}

/// The unit after one paced tick of turning. A unit that is not turning is
/// left as it is. A turning unit takes one step toward the bearing of its
/// destination, which it notes as the angle it desires, and loses the
/// `Rotating` mark if that step aligned it.
pub open spec fn rotated(unit: Unit, delta_ms: int) -> Unit {
    if turns(unit) {
        let desired = bearing_between(unit.position, unit.destination->Some_0.0);
        let angle = turned(unit.direction.current as int, desired, unit.rotation_speed->Some_0.value as int, delta_ms);
        Unit {
            direction: Direction { desired: desired as i64, current: angle as i64 },
            rotating: if aligned(angle, desired) {
                None
            } else {
                unit.rotating
            },
            ..unit
        }
    } else {
        unit
    }
}

/// Every unit of `units` after one paced tick of turning.
pub open spec fn rotated_all(units: Seq<Unit>, delta_ms: int) -> Seq<Unit> {
    Seq::new(units.len(), |i: int| rotated(units[i], delta_ms))
}

/// A unit after paced ticks of turning of the lengths `deltas`, one after another.
pub open spec fn rotated_through(unit: Unit, deltas: Seq<int>) -> Unit
    decreases deltas.len(),
{
    if deltas.len() == 0 {
        unit
    } else {
        rotated(rotated_through(unit, deltas.drop_last()), deltas.last())
    }
}

/// Picks the shorter way round from `current` to `desired`.
pub fn get_heading(desired: i64, current: i64) -> (direction: RotationDirection)
    ensures
        direction == heading(desired as int, current as int),
{
    let desired: i128 = desired as i128;
    let current: i128 = current as i128;
    let half: i128 = HALF_TURN as i128;
    if (desired < current) && (current - desired < half) {
        return RotationDirection::CW;
    }
    if (current < desired) && (desired - current < half) {
        return RotationDirection::CCW;
    }
    if (desired < current) && (current - desired > half) {
        return RotationDirection::CCW;
    }
    if (current < desired) && (desired - current > half) {
        return RotationDirection::CW;
    }
    return RotationDirection::CW;
}

/// One step of turning for one unit.
fn rotate_unit(unit: Unit, delta_ms: u32) -> (after: Unit)
    requires
        unit.within_limit(),
    ensures
        after == rotated(unit, delta_ms as int),
        after.within_limit(),
{
    let speed = match unit.rotation_speed {
        Some(speed) => speed,
        None => {
            return unit;
        },
    };
    let destination = match unit.destination {
        Some(destination) => destination,
        None => {
            return unit;
        },
    };
    if unit.rotating.is_none() {
        return unit;
    }
    let angle_between_pts: i64 = bearing(&unit.position, &destination.0);
    let mut new_angle: i64 = unit.direction.current;
    assert(-4_294_967_296_000_000_000_000 <= speed.value * delta_ms <= 4_294_967_296_000_000_000_000)
        by (nonlinear_arith)
        requires
            -1_000_000_000_000 <= speed.value <= 1_000_000_000_000,
            0 <= delta_ms <= 4_294_967_296,
    ;
    let step: i64 = divide(speed.value as i128 * delta_ms as i128, 1000) as i64;
    match get_heading(angle_between_pts, new_angle) {
        RotationDirection::CW => new_angle -= step,
        RotationDirection::CCW => new_angle += step,
    }
    if new_angle >= FULL_TURN {
        new_angle = 0;
    } else if new_angle < 0 {
        new_angle = FULL_TURN;
    }
    let mut after = unit;
    if round_to_whole(new_angle) == round_to_whole(angle_between_pts) {
        after.rotating = None;
    }
    after.direction.desired = angle_between_pts;
    after.direction.current = new_angle;
    after
}

/// One tick of turning.
///
/// The cooldown of turning advances by `delta_ms`. Where that makes it fire,
/// every turning unit takes one step; otherwise no unit changes.
pub fn rotate_system(units: &mut Vec<Unit>, game: &mut Game, delta_ms: u32)
    requires
        world_within_limit(old(units)@),
    ensures
        final(game).turned_on(*old(game), delta_ms as int),
        final(units)@ == (if old(game).mechanics.rotate_cooldown.fires_after(delta_ms as int) {
            rotated_all(old(units)@, delta_ms as int)
        } else {
            old(units)@
        }),
        world_within_limit(final(units)@),
{
    game.mechanics.rotate_cooldown.tick(delta_ms);
    if game.mechanics.rotate_cooldown.finished() {
        let ghost before = units@;
        let mut i: usize = 0;
        while i < units.len()
            invariant
                i <= units.len(),
                units.len() == before.len(),
                world_within_limit(before),
                forall|k: int| 0 <= k < i ==> units@[k] == rotated(before[k], delta_ms as int),
                forall|k: int| 0 <= k < i ==> (#[trigger] units@[k]).within_limit(),
                forall|k: int| i <= k < units.len() ==> units@[k] == before[k],
            decreases units.len() - i,
        {
            let after = rotate_unit(units[i], delta_ms);
            units.set(i, after);
            i += 1;
        }
        assert(units@ =~= rotated_all(before, delta_ms as int));
    }
}

/// For angles in `[0, 360)` degrees the turn goes the shorter way round, and
/// clockwise where both ways are equally long.
pub proof fn lemma_heading_takes_shorter_arc(desired: int, current: int)
    requires
        0 <= desired < FULL_TURN,
        0 <= current < FULL_TURN,
    ensures
        heading(desired, current) == RotationDirection::CW <==> clockwise_arc(desired, current)
            <= counter_clockwise_arc(desired, current),
        heading(desired, current) == RotationDirection::CCW <==> counter_clockwise_arc(desired, current)
            < clockwise_arc(desired, current),
{
}

/// After a step the facing angle lies between zero and a full turn, both included.
pub proof fn lemma_turned_is_wrapped(current: int, desired: int, speed: int, delta_ms: int)
    ensures
        0 <= turned(current, desired, speed, delta_ms) <= FULL_TURN,
{
}

/// A unit without the `Rotating` mark rests: no number of ticks changes it.
pub proof fn lemma_aligned_unit_rests(unit: Unit, deltas: Seq<int>)
    requires
        unit.rotating is None,
    ensures
        rotated_through(unit, deltas) == unit,
    decreases deltas.len(),
{
    if deltas.len() > 0 {
        lemma_aligned_unit_rests(unit, deltas.drop_last());
    }
}

/// A tick that brings the facing angle of a turning unit to the bearing of its
/// destination, to the nearest degree, takes the `Rotating` mark away, and the
/// ticks after it change neither the mark nor the angle.
pub proof fn lemma_alignment_is_kept(unit: Unit, delta_ms: int, deltas: Seq<int>)
    requires
        turns(unit),
        aligned(
            rotated(unit, delta_ms).direction.current as int,
            bearing_between(unit.position, unit.destination->Some_0.0),
        ),
    ensures
        rotated(unit, delta_ms).rotating is None,
        rotated_through(rotated(unit, delta_ms), deltas) == rotated(unit, delta_ms),
{
    let speed = unit.rotation_speed->Some_0.value as int;
    let destination = unit.destination->Some_0.0;
    let desired = bearing_between(unit.position, destination);
    let angle = turned(unit.direction.current as int, desired, speed, delta_ms);
    assert(0 <= angle <= FULL_TURN);
    lemma_aligned_unit_rests(rotated(unit, delta_ms), deltas);
}

} // verus!
