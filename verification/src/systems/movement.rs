//! Steering: attraction to the destination, separation from neighbours.
//!
//! Every paced tick a mobile unit moves a fraction of the way toward a
//! target. The target is its destination, or its own position where it has
//! none, shifted by one push for every other unit that stands closer than
//! `SOCIAL_DISTANCE` on every axis. The new position is clamped into the
//! playing field and put on the ground, and a unit that came within
//! `ARRIVAL_TOLERANCE` of its destination gives the destination up.

use vstd::prelude::*;
use crate::components::mechanics::world_within_limit;
use crate::components::mechanics::MovementSpeed;
use crate::components::mechanics::Unit;
use crate::constants::constants::GROUND_LEVEL;
use crate::constants::plane::game_bounds;
use crate::constants::plane::spec_game_bounds;
use crate::constants::plane::EDGE_PADDING;
use crate::constants::units::ARRIVAL_TOLERANCE;
use crate::constants::units::SOCIAL_DISTANCE;
use crate::fixed::divide;
use crate::fixed::quotient;
use crate::fixed::within_limit;
use crate::fixed::LIMIT;
use crate::game::Game;
use crate::util::are_positions_near;
use crate::util::clamped;
use crate::util::positions_near;
use crate::util::Vec3;

verus! {

/// An offset in world space with components of any size.
pub struct Offset {
    pub x: int,
    pub y: int,
    pub z: int,
}

impl Offset {
    /// No offset at all.
    pub open spec fn zero() -> Offset {
        Offset { x: 0, y: 0, z: 0 }
    }

    /// The sum of two offsets.
    pub open spec fn plus(self, other: Offset) -> Offset {
        Offset { x: self.x + other.x, y: self.y + other.y, z: self.z + other.z }
    }

    /// The offset from `from` to `to`.
    pub open spec fn between(from: Vec3, to: Vec3) -> Offset {
        Offset { x: to.x - from.x, y: to.y - from.y, z: to.z - from.z }
    }

    /// The offset of a point from the origin.
    pub open spec fn of(point: Vec3) -> Offset {
        Offset { x: point.x as int, y: point.y as int, z: point.z as int }
    }

    /// The square of the length of the offset.
    pub open spec fn norm_squared(self) -> int {
        self.x * self.x + self.y * self.y + self.z * self.z
    }
}

/// Largest magnitude of a coordinate of a steering target: a destination
/// within `LIMIT` and the pushes of up to `u32::MAX` neighbours.
pub const TARGET_LIMIT: i64 = 8_000_000_000_000;

/// The largest `n` up to `limit` with `n * n * weight <= target`, or zero
/// where there is none.
pub open spec fn scaled_root(limit: nat, target: int, weight: int) -> nat
    decreases limit,
{
    if limit == 0 {
        0
    } else if limit * limit * weight <= target {
        limit
    } else {
        scaled_root((limit - 1) as nat, target, weight)
    }
}

/// One component of the unit vector along an offset, in thousandths: the
/// component `c` divided by the length of the offset, rounded toward zero.
/// `norm_squared` is the square of that length.
pub open spec fn unit_part(c: int, norm_squared: int) -> int {
    if c < 0 {
        -(scaled_root(1000, 1_000_000 * c * c, norm_squared) as int)
    } else {
        scaled_root(1000, 1_000_000 * c * c, norm_squared) as int
    }
}

/// One component of the push between two units that are `c` apart on this
/// axis: the unit vector scaled by how far `c` falls short of twice `reach`,
/// as a share of twice `reach`.
pub open spec fn push_part(c: int, norm_squared: int, reach: int) -> int {
    quotient(unit_part(c, norm_squared) * (2 * reach - c), 2 * reach)
}

/// The push on a unit that stands at the offset `apart` from a neighbour.
/// Two units on the same spot do not push each other.
pub open spec fn repulsion(apart: Offset, reach: int) -> Offset {
    if apart.norm_squared() == 0 {
        Offset::zero()
    } else {
        Offset {
            x: push_part(apart.x, apart.norm_squared(), reach),
            y: push_part(apart.y, apart.norm_squared(), reach),
            z: push_part(apart.z, apart.norm_squared(), reach),
        }
    }
}

/// What one entry of the positions adds to the target of the unit named
/// `unit` at `position`: the push of a neighbour that is another unit and near,
/// nothing otherwise.
pub open spec fn push_of(unit: u64, position: Vec3, other: (u64, Vec3), reach: int) -> Offset {
    if other.0 != unit && positions_near(position, other.1, reach) {
        repulsion(Offset::between(other.1, position), reach)
    } else {
        Offset::zero()
    }
}

/// The sum of the pushes of all `others` on the unit named `unit` at `position`.
pub open spec fn total_push(unit: u64, position: Vec3, others: Seq<(u64, Vec3)>, reach: int) -> Offset
    decreases others.len(),
{
    if others.len() == 0 {
        Offset::zero()
    } else {
        total_push(unit, position, others.drop_last(), reach).plus(push_of(unit, position, others.last(), reach))
    }
}

/// The target of a unit: what attracts it, shifted by the pushes of its neighbours.
pub open spec fn adjusted_destination(
    unit: u64,
    position: Vec3,
    attraction: Vec3,
    others: Seq<(u64, Vec3)>,
    reach: int,
) -> Offset {
    Offset::of(attraction).plus(total_push(unit, position, others, reach))
}

/// One coordinate after a move: from `from` toward `to` by the share
/// `speed * delta_ms / 1_000_000` of the way, rounded toward zero. The share is
/// not limited to one: a fast unit or a long tick overshoots.
pub open spec fn advanced(from: int, to: int, speed: int, delta_ms: int) -> int {
    from + quotient((to - from) * (speed * delta_ms), 1_000_000)
}

/// Where a unit at `position` stands after one move toward `target`: advanced
/// on the ground plane, clamped into the playing field less its padding, and
/// put on the ground.
pub open spec fn moved_position(position: Vec3, target: Offset, speed: int, delta_ms: int) -> Vec3 {
    Vec3 {
        x: clamped(
            advanced(position.x as int, target.x, speed, delta_ms),
            spec_game_bounds().min_x + EDGE_PADDING,
            spec_game_bounds().max_x - EDGE_PADDING,
        ) as i64,
        y: GROUND_LEVEL,
        z: clamped(
            advanced(position.z as int, target.z, speed, delta_ms),
            spec_game_bounds().min_z + EDGE_PADDING,
            spec_game_bounds().max_z - EDGE_PADDING,
        ) as i64,
    }
}

/// The names and positions of `units`, in their order.
pub open spec fn positions_of(units: Seq<Unit>) -> Seq<(u64, Vec3)> {
    Seq::new(units.len(), |i: int| (units[i].id, units[i].position))
}

/// Whether the unit travels: it can move and has a destination.
pub open spec fn travels(unit: Unit) -> bool {
    unit.movement_speed is Some && unit.destination is Some
}

/// Whether the unit idles: it can move and has no destination.
pub open spec fn idles(unit: Unit) -> bool {
    unit.movement_speed is Some && unit.destination is None
}

/// Where a mobile unit stands after one paced tick in which `attraction`
/// draws it and `others` are the units of the world.
pub open spec fn steered(unit: Unit, attraction: Vec3, others: Seq<(u64, Vec3)>, delta_ms: int) -> Vec3 {
    moved_position(
        unit.position,
        adjusted_destination(unit.id, unit.position, attraction, others, SOCIAL_DISTANCE as int),
        unit.movement_speed->Some_0.value as int,
        delta_ms,
    )
}

/// A unit after one paced tick of travel. A unit that does not travel is left
/// as it is. A travelling unit moves, and gives its destination up if it now
/// stands within `ARRIVAL_TOLERANCE` of it on every axis.
pub open spec fn travelled(unit: Unit, others: Seq<(u64, Vec3)>, delta_ms: int) -> Unit {
    if travels(unit) {
        let destination = unit.destination->Some_0.0;
        let position = steered(unit, destination, others, delta_ms);
        Unit {
            position,
            destination: if positions_near(destination, position, ARRIVAL_TOLERANCE as int) {
                None
            } else {
                unit.destination
            },
            ..unit
        }
    } else {
        unit
    }
}

/// A unit after one paced tick of idling. A unit that does not idle is left
/// as it is. An idling unit is drawn to its own position and pushed by its
/// neighbours.
pub open spec fn jostled(unit: Unit, others: Seq<(u64, Vec3)>, delta_ms: int) -> Unit {
    if idles(unit) {
        Unit { position: steered(unit, unit.position, others, delta_ms), ..unit }
    } else {
        unit
    }
}

/// Every unit of `units` after one paced tick of travel. Each unit sees its
/// neighbours where they stood before the tick.
pub open spec fn travelled_all(units: Seq<Unit>, delta_ms: int) -> Seq<Unit> {
    Seq::new(units.len(), |i: int| travelled(units[i], positions_of(units), delta_ms))
}

/// Every unit of `units` after one paced tick of idling. Each unit sees its
/// neighbours where they stood before the tick.
pub open spec fn jostled_all(units: Seq<Unit>, delta_ms: int) -> Seq<Unit> {
    Seq::new(units.len(), |i: int| jostled(units[i], positions_of(units), delta_ms))
}

/// A unit after one paced tick of steering: a travelling unit has travelled,
/// an idling unit has been jostled, and any other unit is as it was.
pub open spec fn steered_unit(unit: Unit, others: Seq<(u64, Vec3)>, delta_ms: int) -> Unit {
    if travels(unit) {
        travelled(unit, others, delta_ms)
    } else {
        jostled(unit, others, delta_ms)
    }
}

/// Every unit of `units` after one paced tick of steering. Each unit sees its
/// neighbours where they stood before the tick.
pub open spec fn steered_all(units: Seq<Unit>, delta_ms: int) -> Seq<Unit> {
    Seq::new(units.len(), |i: int| steered_unit(units[i], positions_of(units), delta_ms))
}

/// Among `limit` and the numbers below it, `root` is the largest whose square
/// times `weight` stays within `target`.
proof fn lemma_scaled_root_is(limit: nat, root: nat, target: int, weight: int)
    requires
        weight > 0,
        root <= limit,
        root * root * weight <= target,
        root < limit ==> (root + 1) * (root + 1) * weight > target,
    ensures
        scaled_root(limit, target, weight) == root,
    decreases limit - root,
{
    if root < limit {
        assert(limit * limit * weight >= (root + 1) * (root + 1) * weight) by (nonlinear_arith)
            requires
                limit >= root + 1,
                weight > 0,
        ;
        lemma_scaled_root_is((limit - 1) as nat, root, target, weight);
    }
}

/// A scaled root is no larger than its limit.
proof fn lemma_scaled_root_bound(limit: nat, target: int, weight: int)
    ensures
        scaled_root(limit, target, weight) <= limit,
    decreases limit,
{
    if limit > 0 {
        lemma_scaled_root_bound((limit - 1) as nat, target, weight);
    }
}

/// A component of a unit vector has the sign of the component it was made
/// from, and at most the length one.
pub proof fn lemma_unit_part_sign(c: int, norm_squared: int)
    requires
        norm_squared > 0,
    ensures
        -1000 <= unit_part(c, norm_squared) <= 1000,
        c >= 0 ==> unit_part(c, norm_squared) >= 0,
        c <= 0 ==> unit_part(c, norm_squared) <= 0,
        c == 0 ==> unit_part(c, norm_squared) == 0,
{
    lemma_scaled_root_bound(1000, 1_000_000 * c * c, norm_squared);
    if c == 0 {
        assert(1_000_000 * c * c == 0) by (nonlinear_arith)
            requires
                c == 0,
        ;
        assert(0nat * 0nat * norm_squared == 0) by (nonlinear_arith);
        assert((0nat + 1) * (0nat + 1) * norm_squared > 0) by (nonlinear_arith)
            requires
                norm_squared > 0,
        ;
        lemma_scaled_root_is(1000, 0, 0, norm_squared);
    }
}

/// Between two units that are near each other, a component of the push has
/// the sign of the distance on its axis, and is at most one and a half.
pub proof fn lemma_push_part_sign(c: int, norm_squared: int, reach: int)
    requires
        -reach < c < reach,
        norm_squared > 0,
    ensures
        -1500 <= push_part(c, norm_squared, reach) <= 1500,
        c >= 0 ==> push_part(c, norm_squared, reach) >= 0,
        c <= 0 ==> push_part(c, norm_squared, reach) <= 0,
{
    lemma_unit_part_sign(c, norm_squared);
    let n = unit_part(c, norm_squared);
    let f = 2 * reach - c;
    assert(reach < f < 3 * reach);
    if c == 0 {
        assert(n * f == 0) by (nonlinear_arith)
            requires
                n == 0,
        ;
    } else if c >= 0 {
        assert(0 <= n * f <= 1000 * f) by (nonlinear_arith)
            requires
                0 <= n <= 1000,
                f > 0,
        ;
        assert(0 <= (n * f) / (2 * reach) <= 1500) by (nonlinear_arith)
            requires
                0 <= n * f <= 1000 * f,
                0 < f < 3 * reach,
        ;
    } else {
        assert(0 <= -(n * f) <= 1000 * f) by (nonlinear_arith)
            requires
                -1000 <= n <= 0,
                f > 0,
        ;
        assert(0 <= (-(n * f)) / (2 * reach) <= 1500) by (nonlinear_arith)
            requires
                0 <= -(n * f) <= 1000 * f,
                0 < f < 3 * reach,
        ;
    }
}

/// A single push is at most one and a half on every axis.
pub proof fn lemma_push_is_small(unit: u64, position: Vec3, other: (u64, Vec3), reach: int)
    ensures
        -1500 <= push_of(unit, position, other, reach).x <= 1500,
        -1500 <= push_of(unit, position, other, reach).y <= 1500,
        -1500 <= push_of(unit, position, other, reach).z <= 1500,
{
    if other.0 != unit && positions_near(position, other.1, reach) {
        let apart = Offset::between(other.1, position);
        assert(apart.norm_squared() >= 0) by (nonlinear_arith)
            requires
                apart.norm_squared() == apart.x * apart.x + apart.y * apart.y + apart.z * apart.z,
        ;
        if apart.norm_squared() == 0 {
            return ;
        }
        lemma_push_part_sign(apart.x, apart.norm_squared(), reach);
        lemma_push_part_sign(apart.y, apart.norm_squared(), reach);
        lemma_push_part_sign(apart.z, apart.norm_squared(), reach);
    }
}

/// The component of the unit vector along an offset whose squared length is
/// `norm_squared`.
fn unit_component(c: i64, norm_squared: i128) -> (part: i64)
    requires
        -2 * LIMIT <= c <= 2 * LIMIT,
        0 < norm_squared <= 12 * LIMIT * LIMIT,
    ensures
        part == unit_part(c as int, norm_squared as int),
        -1000 <= part <= 1000,
{
    let wide: i128 = c as i128;
    assert(0 <= wide * wide <= 4 * LIMIT * LIMIT) by (nonlinear_arith)
        requires
            -2 * LIMIT <= wide <= 2 * LIMIT,
    ;
    let target: i128 = 1_000_000 * (wide * wide);
    assert(target == 1_000_000 * c * c) by (nonlinear_arith)
        requires
            target == 1_000_000 * (wide * wide),
            wide == c,
    ;
    let mut low: i128 = 0;
    let mut high: i128 = 1000;
    assert(0 * 0 * norm_squared == 0) by (nonlinear_arith);
    while low < high
        invariant
            0 <= low <= high <= 1000,
            0 < norm_squared <= 12 * LIMIT * LIMIT,
            target >= 0,
            low * low * norm_squared <= target,
            high < 1000 ==> (high + 1) * (high + 1) * norm_squared > target,
        decreases high - low,
    {
        let mid: i128 = (low + high + 1) / 2;
        assert(0 <= mid * mid <= 1_000_000) by (nonlinear_arith)
            requires
                0 <= mid <= 1000,
        ;
        assert(0 <= mid * mid * norm_squared <= 1_000_000 * norm_squared) by (nonlinear_arith)
            requires
                0 <= mid * mid <= 1_000_000,
                norm_squared > 0,
        ;
        if mid * mid * norm_squared <= target {
            low = mid;
        } else {
            high = mid - 1;
        }
    }
    proof {
        lemma_scaled_root_is(1000, low as nat, target as int, norm_squared as int);
    }
    if c < 0 {
        (-low) as i64
    } else {
        low as i64
    }
}

/// One component of the push between two near units.
fn push_component(c: i64, norm_squared: i128, reach: i64) -> (part: i64)
    requires
        -reach < c < reach,
        reach <= 2 * LIMIT,
        0 < norm_squared <= 12 * LIMIT * LIMIT,
    ensures
        part == push_part(c as int, norm_squared as int, reach as int),
        -1500 <= part <= 1500,
{
    let direction: i128 = unit_component(c, norm_squared) as i128;
    let shortfall: i128 = 2 * (reach as i128) - c as i128;
    assert(-1000 * shortfall <= direction * shortfall <= 1000 * shortfall) by (nonlinear_arith)
        requires
            -1000 <= direction <= 1000,
            shortfall > 0,
    ;
    proof {
        lemma_push_part_sign(c as int, norm_squared as int, reach as int);
    }
    divide(direction * shortfall, 2 * (reach as i128)) as i64
}

/// The target of a unit: `unit_destination` shifted by the pushes of the
/// units of `all_units_positions` that are near `unit_position`. The entry of
/// the unit itself is passed over.
pub fn adjust_movement_for_neighbors(
    unit: u64,
    unit_position: &Vec3,
    unit_destination: Vec3,
    all_units_positions: &Vec<(u64, Vec3)>,
) -> (new_destination: Vec3)
    requires
        unit_position.within_limit(),
        unit_destination.within_limit(),
        all_units_positions.len() <= u32::MAX,
        forall|i: int| 0 <= i < all_units_positions.len() ==> (#[trigger] all_units_positions@[i]).1.within_limit(),
    ensures
        Offset::of(new_destination) == adjusted_destination(
            unit,
            *unit_position,
            unit_destination,
            all_units_positions@,
            SOCIAL_DISTANCE as int,
        ),
        -TARGET_LIMIT <= new_destination.x <= TARGET_LIMIT,
        -TARGET_LIMIT <= new_destination.y <= TARGET_LIMIT,
        -TARGET_LIMIT <= new_destination.z <= TARGET_LIMIT,
{
    let mut new_destination = unit_destination;
    let ghost others = all_units_positions@;
    let mut i: usize = 0;
    while i < all_units_positions.len()
        invariant
            i <= all_units_positions.len(),
            all_units_positions.len() <= u32::MAX,
            others == all_units_positions@,
            unit_position.within_limit(),
            unit_destination.within_limit(),
            forall|k: int| 0 <= k < others.len() ==> (#[trigger] others[k]).1.within_limit(),
            Offset::of(new_destination) == adjusted_destination(
                unit,
                *unit_position,
                unit_destination,
                others.take(i as int),
                SOCIAL_DISTANCE as int,
            ),
            -1500 * i <= new_destination.x - unit_destination.x <= 1500 * i,
            -1500 * i <= new_destination.y - unit_destination.y <= 1500 * i,
            -1500 * i <= new_destination.z - unit_destination.z <= 1500 * i,
        decreases all_units_positions.len() - i,
    {
        let other_entity: u64 = all_units_positions[i].0;
        let other_position: Vec3 = all_units_positions[i].1;
        proof {
            assert(others.take(i + 1).drop_last() =~= others.take(i as int));
            assert(others.take(i + 1).last() == others[i as int]);
            assert(others[i as int].1.within_limit());
            lemma_push_is_small(unit, *unit_position, others[i as int], SOCIAL_DISTANCE as int);
        }
        // Skip comparing to self.
        if unit != other_entity && are_positions_near(unit_position, &other_position, SOCIAL_DISTANCE) {
            let dx: i64 = unit_position.x - other_position.x;
            let dy: i64 = unit_position.y - other_position.y;
            let dz: i64 = unit_position.z - other_position.z;
            let wx: i128 = dx as i128;
            let wy: i128 = dy as i128;
            let wz: i128 = dz as i128;
            assert(0 <= wx * wx <= 4 * LIMIT * LIMIT && 0 <= wy * wy <= 4 * LIMIT * LIMIT && 0 <= wz * wz <= 4
                * LIMIT * LIMIT) by (nonlinear_arith)
                requires
                    -2 * LIMIT <= wx <= 2 * LIMIT,
                    -2 * LIMIT <= wy <= 2 * LIMIT,
                    -2 * LIMIT <= wz <= 2 * LIMIT,
            ;
            let norm_squared: i128 = wx * wx + wy * wy + wz * wz;
            if norm_squared != 0 {
                new_destination.x = new_destination.x + push_component(dx, norm_squared, SOCIAL_DISTANCE);
                new_destination.y = new_destination.y + push_component(dy, norm_squared, SOCIAL_DISTANCE);
                new_destination.z = new_destination.z + push_component(dz, norm_squared, SOCIAL_DISTANCE);
            }
        }
        i += 1;
    }
    assert(others.take(i as int) =~= others);
    new_destination
}

/// Moves a unit toward `new_destination` for `delta_ms` milliseconds, keeps
/// it in the playing field, and puts it on the ground.
pub fn move_unit(
    unit_position: &Vec3,
    new_destination: Vec3,
    unit_speed: &MovementSpeed,
    delta_ms: u32,
) -> (new_unit_position: Vec3)
    requires
        unit_position.within_limit(),
        within_limit(unit_speed.value as int),
        -TARGET_LIMIT <= new_destination.x <= TARGET_LIMIT,
        -TARGET_LIMIT <= new_destination.z <= TARGET_LIMIT,
    ensures
        new_unit_position == moved_position(
            *unit_position,
            Offset::of(new_destination),
            unit_speed.value as int,
            delta_ms as int,
        ),
        spec_game_bounds().min_x + EDGE_PADDING <= new_unit_position.x <= spec_game_bounds().max_x - EDGE_PADDING,
        spec_game_bounds().min_z + EDGE_PADDING <= new_unit_position.z <= spec_game_bounds().max_z - EDGE_PADDING,
        new_unit_position.y == GROUND_LEVEL,
        new_unit_position.within_limit(),
{
    assert(-4_294_967_296_000_000_000_000 <= unit_speed.value * delta_ms <= 4_294_967_296_000_000_000_000)
        by (nonlinear_arith)
        requires
            -1_000_000_000_000 <= unit_speed.value <= 1_000_000_000_000,
            0 <= delta_ms <= 4_294_967_296,
    ;
    let share: i128 = unit_speed.value as i128 * delta_ms as i128;
    let x: i128 = advance(unit_position.x, new_destination.x, share);
    let z: i128 = advance(unit_position.z, new_destination.z, share);
    let bounds = game_bounds();
    Vec3 {
        x: clamp(x, bounds.min_x + EDGE_PADDING, bounds.max_x - EDGE_PADDING),
        y: GROUND_LEVEL,
        z: clamp(z, bounds.min_z + EDGE_PADDING, bounds.max_z - EDGE_PADDING),
    }
}

/// One coordinate moved from `from` toward `to` by `share` millionths of the way.
fn advance(from: i64, to: i64, share: i128) -> (after: i128)
    requires
        within_limit(from as int),
        -TARGET_LIMIT <= to <= TARGET_LIMIT,
        -4_294_967_296_000_000_000_000 <= share <= 4_294_967_296_000_000_000_000,
    ensures
        after == from + quotient((to - from) * share, 1_000_000),
{
    let way: i128 = to as i128 - from as i128;
    assert(-38_654_705_664_000_000_000_000_000_000_000_000 <= way * share
        <= 38_654_705_664_000_000_000_000_000_000_000_000) by (nonlinear_arith)
        requires
            -9_000_000_000_000 <= way <= 9_000_000_000_000,
            -4_294_967_296_000_000_000_000 <= share <= 4_294_967_296_000_000_000_000,
    ;
    let step: i128 = divide(way * share, 1_000_000);
    proof {
        crate::fixed::lemma_quotient_bounds((way * share) as int, 1_000_000);
    }
    from as i128 + step
}

/// `v` brought into `[low, high]`.
fn clamp(v: i128, low: i64, high: i64) -> (kept: i64)
    ensures
        kept == clamped(v as int, low as int, high as int),
{
    let raised: i128 = if v < low as i128 {
        low as i128
    } else {
        v
    };
    if raised > high as i128 {
        high
    } else {
        raised as i64
    }
}

/// Takes the destination away from a unit that has reached it: `unit_position`
/// is within `arrival_tolerance` of `destination` on every axis.
pub fn stop_at_destination(unit: &mut Unit, unit_position: Vec3, destination: Vec3, arrival_tolerance: i64)
    ensures
        *final(unit) == (Unit {
            destination: if positions_near(destination, unit_position, arrival_tolerance as int) {
                None
            } else {
                old(unit).destination
            },
            ..*old(unit)
        }),
{
    if are_positions_near(&destination, &unit_position, arrival_tolerance) {
        unit.destination = None;
    }
}

/// The names and positions of all units.
fn snapshot(units: &Vec<Unit>) -> (positions: Vec<(u64, Vec3)>)
    ensures
        positions@ == positions_of(units@),
{
    let mut positions: Vec<(u64, Vec3)> = Vec::new();
    let mut i: usize = 0;
    while i < units.len()
        invariant
            i <= units.len(),
            positions@ == positions_of(units@.take(i as int)),
        decreases units.len() - i,
    {
        positions.push((units[i].id, units[i].position));
        assert(positions@ =~= positions_of(units@.take(i + 1)));
        i += 1;
    }
    assert(units@.take(i as int) =~= units@);
    positions
}

/// One tick of travel.
///
/// The cooldown of steering advances by `delta_ms`. Where that makes it fire,
/// every unit that has a movement speed and a destination moves toward the
/// destination and away from its neighbours, and gives the destination up on
/// arrival; otherwise no unit changes.
pub fn movement_system(units: &mut Vec<Unit>, game: &mut Game, delta_ms: u32)
    requires
        world_within_limit(old(units)@),
    ensures
        final(game).moved_on(*old(game), delta_ms as int),
        final(units)@ == (if old(game).mechanics.move_cooldown.fires_after(delta_ms as int) {
            travelled_all(old(units)@, delta_ms as int)
        } else {
            old(units)@
        }),
        world_within_limit(final(units)@),
{
    game.mechanics.move_cooldown.tick(delta_ms);
    if game.mechanics.move_cooldown.finished() {
        let units_positions = snapshot(units);
        let ghost before = units@;
        let mut i: usize = 0;
        while i < units.len()
            invariant
                i <= units.len(),
                units.len() == before.len(),
                world_within_limit(before),
                units_positions@ == positions_of(before),
                forall|k: int| 0 <= k < i ==> units@[k] == travelled(before[k], positions_of(before), delta_ms as int),
                forall|k: int| 0 <= k < i ==> (#[trigger] units@[k]).within_limit(),
                forall|k: int| i <= k < units.len() ==> units@[k] == before[k],
            decreases units.len() - i,
        {
            let mut unit = units[i];
            assert(unit.within_limit());
            assert forall|k: int| 0 <= k < units_positions.len() implies (
            #[trigger] units_positions@[k]).1.within_limit() by {
                assert(before[k].within_limit());
            }
            if let Some(destination) = unit.destination {
                if let Some(speed) = unit.movement_speed {
                    let new_destination = adjust_movement_for_neighbors(
                        unit.id,
                        &unit.position,
                        destination.0,
                        &units_positions,
                    );
                    unit.position = move_unit(&unit.position, new_destination, &speed, delta_ms);
                    let position = unit.position;
                    stop_at_destination(&mut unit, position, destination.0, ARRIVAL_TOLERANCE);
                    units.set(i, unit);
                }
            }
            i += 1;
        }
        assert(units@ =~= travelled_all(before, delta_ms as int));
    }
}

/// One tick of idling.
///
/// The cooldown of steering advances by `delta_ms`. Where that makes it fire,
/// every unit that has a movement speed and no destination is pushed away from
/// its neighbours; otherwise no unit changes.
pub fn adjust_still_units_system(units: &mut Vec<Unit>, game: &mut Game, delta_ms: u32)
    requires
        world_within_limit(old(units)@),
    ensures
        final(game).moved_on(*old(game), delta_ms as int),
        final(units)@ == (if old(game).mechanics.move_cooldown.fires_after(delta_ms as int) {
            jostled_all(old(units)@, delta_ms as int)
        } else {
            old(units)@
        }),
        world_within_limit(final(units)@),
{
    game.mechanics.move_cooldown.tick(delta_ms);
    if game.mechanics.move_cooldown.finished() {
        let all_units_positions = snapshot(units);
        let ghost before = units@;
        let mut i: usize = 0;
        while i < units.len()
            invariant
                i <= units.len(),
                units.len() == before.len(),
                world_within_limit(before),
                all_units_positions@ == positions_of(before),
                forall|k: int| 0 <= k < i ==> units@[k] == jostled(before[k], positions_of(before), delta_ms as int),
                forall|k: int| 0 <= k < i ==> (#[trigger] units@[k]).within_limit(),
                forall|k: int| i <= k < units.len() ==> units@[k] == before[k],
            decreases units.len() - i,
        {
            let mut unit = units[i];
            assert(unit.within_limit());
            assert forall|k: int| 0 <= k < all_units_positions.len() implies (
            #[trigger] all_units_positions@[k]).1.within_limit() by {
                assert(before[k].within_limit());
            }
            if unit.destination.is_none() {
                if let Some(speed) = unit.movement_speed {
                    let new_destination = adjust_movement_for_neighbors(
                        unit.id,
                        &unit.position,
                        unit.position,
                        &all_units_positions,
                    );
                    unit.position = move_unit(&unit.position, new_destination, &speed, delta_ms);
                    units.set(i, unit);
                }
            }
            i += 1;
        }
        assert(units@ =~= jostled_all(before, delta_ms as int));
    }
}

/// One tick of steering for all mobile units at once.
///
/// The cooldown of steering advances by `delta_ms`. Where that makes it fire,
/// every unit with a movement speed moves: toward its destination where it has
/// one, giving it up on arrival, and in any case away from its neighbours.
/// All units see each other where they stood before the tick. Where the
/// cooldown does not fire no unit changes.
pub fn steering_system(units: &mut Vec<Unit>, game: &mut Game, delta_ms: u32)
    requires
        world_within_limit(old(units)@),
    ensures
        final(game).moved_on(*old(game), delta_ms as int),
        final(units)@ == (if old(game).mechanics.move_cooldown.fires_after(delta_ms as int) {
            steered_all(old(units)@, delta_ms as int)
        } else {
            old(units)@
        }),
        world_within_limit(final(units)@),
{
    game.mechanics.move_cooldown.tick(delta_ms);
    if game.mechanics.move_cooldown.finished() {
        let all_units_positions = snapshot(units);
        let ghost before = units@;
        let mut i: usize = 0;
        while i < units.len()
            invariant
                i <= units.len(),
                units.len() == before.len(),
                world_within_limit(before),
                all_units_positions@ == positions_of(before),
                forall|k: int|
                    0 <= k < i ==> units@[k] == steered_unit(before[k], positions_of(before), delta_ms as int),
                forall|k: int| 0 <= k < i ==> (#[trigger] units@[k]).within_limit(),
                forall|k: int| i <= k < units.len() ==> units@[k] == before[k],
            decreases units.len() - i,
        {
            let mut unit = units[i];
            assert(unit.within_limit());
            assert forall|k: int| 0 <= k < all_units_positions.len() implies (
            #[trigger] all_units_positions@[k]).1.within_limit() by {
                assert(before[k].within_limit());
            }
            if let Some(speed) = unit.movement_speed {
                let attraction = match unit.destination {
                    Some(destination) => destination.0,
                    None => unit.position,
                };
                let new_destination = adjust_movement_for_neighbors(
                    unit.id,
                    &unit.position,
                    attraction,
                    &all_units_positions,
                );
                unit.position = move_unit(&unit.position, new_destination, &speed, delta_ms);
                if unit.destination.is_some() {
                    let position = unit.position;
                    stop_at_destination(&mut unit, position, attraction, ARRIVAL_TOLERANCE);
                }
                units.set(i, unit);
            }
            i += 1;
        }
        assert(units@ =~= steered_all(before, delta_ms as int));
    }
}

/// Whether `position` lies in the playing field less its padding.
pub open spec fn in_padded_field(position: Vec3) -> bool {
    &&& spec_game_bounds().min_x + EDGE_PADDING <= position.x <= spec_game_bounds().max_x - EDGE_PADDING
    &&& spec_game_bounds().min_z + EDGE_PADDING <= position.z <= spec_game_bounds().max_z - EDGE_PADDING
}

/// The square of the distance between two points on the ground plane.
pub open spec fn planar_distance_squared(a: Vec3, b: Vec3) -> int {
    (a.x - b.x) * (a.x - b.x) + (a.z - b.z) * (a.z - b.z)
}

/// Whether no entry of `others` pushes the unit named `unit` at `position`,
/// except perhaps the entry at `except`: every other entry is the unit itself
/// or not near it.
pub open spec fn pushed_only_by(unit: u64, position: Vec3, others: Seq<(u64, Vec3)>, reach: int, except: int) -> bool {
    forall|k: int|
        0 <= k < others.len() && k != except ==> (#[trigger] others[k]).0 == unit || !positions_near(
            position,
            others[k].1,
            reach,
        )
}

/// Every position that a move computes lies in the playing field less its
/// padding, at ground level.
pub proof fn lemma_moved_position_in_field(position: Vec3, target: Offset, speed: int, delta_ms: int)
    ensures
        in_padded_field(moved_position(position, target, speed, delta_ms)),
        moved_position(position, target, speed, delta_ms).y == GROUND_LEVEL,
{
}

/// After a paced tick every unit that travelled or idled stands in the
/// playing field less its padding, at ground level.
pub proof fn lemma_steered_units_stay_in_field(units: Seq<Unit>, delta_ms: int, i: int)
    requires
        0 <= i < units.len(),
    ensures
        travels(units[i]) ==> in_padded_field(travelled_all(units, delta_ms)[i].position) && travelled_all(
            units,
            delta_ms,
        )[i].position.y == GROUND_LEVEL,
        idles(units[i]) ==> in_padded_field(jostled_all(units, delta_ms)[i].position) && jostled_all(
            units,
            delta_ms,
        )[i].position.y == GROUND_LEVEL,
{
}

/// Where at most one entry of `others` pushes a unit, the sum of all pushes
/// is the push of that entry.
proof fn lemma_total_push_of_one(unit: u64, position: Vec3, others: Seq<(u64, Vec3)>, reach: int, except: int)
    requires
        pushed_only_by(unit, position, others, reach, except),
    ensures
        total_push(unit, position, others, reach) == (if 0 <= except < others.len() {
            push_of(unit, position, others[except], reach)
        } else {
            Offset::zero()
        }),
    decreases others.len(),
{
    if others.len() > 0 {
        let shorter = others.drop_last();
        assert forall|k: int| 0 <= k < shorter.len() && k != except implies (#[trigger] shorter[k]).0 == unit
            || !positions_near(position, shorter[k].1, reach) by {
            assert(shorter[k] == others[k]);
        }
        lemma_total_push_of_one(unit, position, shorter, reach, except);
        if except == others.len() - 1 {
            assert(pushed_only_by(unit, position, shorter, reach, -1)) by {
                assert forall|k: int| 0 <= k < shorter.len() && k != -1 implies (#[trigger] shorter[k]).0 == unit
                    || !positions_near(position, shorter[k].1, reach) by {
                    assert(shorter[k] == others[k]);
                }
            }
            lemma_total_push_of_one(unit, position, shorter, reach, -1);
        } else {
            let last = others.last();
            assert(last == others[others.len() - 1]);
            if 0 <= except < shorter.len() {
                assert(shorter[except] == others[except]);
            }
        }
    }
}

/// A share of a step between nothing and all of it goes no further than the
/// step, and goes its way.
proof fn lemma_share_of_step(step: int, share: int)
    requires
        0 <= share <= 1_000_000,
    ensures
        step >= 0 ==> 0 <= quotient(step * share, 1_000_000) <= step,
        step <= 0 ==> step <= quotient(step * share, 1_000_000) <= 0,
{
    if step >= 0 {
        assert(0 <= step * share <= step * 1_000_000) by (nonlinear_arith)
            requires
                step >= 0,
                0 <= share <= 1_000_000,
        ;
    } else {
        assert(0 <= -(step * share) <= (-step) * 1_000_000) by (nonlinear_arith)
            requires
                step < 0,
                0 <= share <= 1_000_000,
        ;
    }
}

/// A step times a share that is not negative goes the way of the step.
proof fn lemma_step_keeps_its_way(step: int, share: int)
    requires
        share >= 0,
    ensures
        step >= 0 ==> quotient(step * share, 1_000_000) >= 0,
        step <= 0 ==> quotient(step * share, 1_000_000) <= 0,
{
    if step >= 0 {
        assert(step * share >= 0) by (nonlinear_arith)
            requires
                step >= 0,
                share >= 0,
        ;
    } else {
        assert(step * share <= 0) by (nonlinear_arith)
            requires
                step <= 0,
                share >= 0,
        ;
    }
    crate::fixed::lemma_quotient_bounds(step * share, 1_000_000);
}

/// On one axis, two coordinates inside `[low, high]` that are each pushed
/// away from the other, then clamped, end no closer than they began.
proof fn lemma_axis_moves_apart(
    p: int,
    q: int,
    push_p: int,
    push_q: int,
    share_p: int,
    share_q: int,
    low: int,
    high: int,
)
    requires
        low <= p <= high,
        low <= q <= high,
        share_p >= 0,
        share_q >= 0,
        p >= q ==> push_p >= 0 && push_q <= 0,
        p <= q ==> push_p <= 0 && push_q >= 0,
    ensures
        crate::fixed::magnitude(
            clamped(p + quotient(push_p * share_p, 1_000_000), low, high) - clamped(
                q + quotient(push_q * share_q, 1_000_000),
                low,
                high,
            ),
        ) >= crate::fixed::magnitude(p - q),
        p >= q ==> clamped(p + quotient(push_p * share_p, 1_000_000), low, high) - clamped(
            q + quotient(push_q * share_q, 1_000_000),
            low,
            high,
        ) >= p - q,
        p <= q ==> clamped(p + quotient(push_p * share_p, 1_000_000), low, high) - clamped(
            q + quotient(push_q * share_q, 1_000_000),
            low,
            high,
        ) <= p - q,
{
    lemma_step_keeps_its_way(push_p, share_p);
    lemma_step_keeps_its_way(push_q, share_q);
}

/// The push of one unit on another goes, on every axis, the way from the one
/// that pushes to the one that is pushed, or is nothing.
proof fn lemma_push_points_away(unit: u64, position: Vec3, other: (u64, Vec3), reach: int)
    ensures
        position.x >= other.1.x ==> push_of(unit, position, other, reach).x >= 0,
        position.x <= other.1.x ==> push_of(unit, position, other, reach).x <= 0,
        position.z >= other.1.z ==> push_of(unit, position, other, reach).z >= 0,
        position.z <= other.1.z ==> push_of(unit, position, other, reach).z <= 0,
{
    if other.0 != unit && positions_near(position, other.1, reach) {
        let apart = Offset::between(other.1, position);
        assert(apart.norm_squared() >= 0) by (nonlinear_arith)
            requires
                apart.norm_squared() == apart.x * apart.x + apart.y * apart.y + apart.z * apart.z,
        ;
        if apart.norm_squared() != 0 {
            lemma_push_part_sign(apart.x, apart.norm_squared(), reach);
            lemma_push_part_sign(apart.z, apart.norm_squared(), reach);
        }
    }
}

/// Separation: two idle units that stand near each other in the playing
/// field, and that no third unit pushes, are after one paced tick no closer to
/// each other than before, on either axis of the ground plane and in their
/// distance on it. This holds of a tick of idling and of a tick of steering
/// alike, which put an idle unit on the same spot.
pub proof fn lemma_idle_neighbours_do_not_approach(units: Seq<Unit>, i: int, j: int, delta_ms: int)
    requires
        0 <= i < units.len(),
        0 <= j < units.len(),
        i != j,
        idles(units[i]),
        idles(units[j]),
        units[i].movement_speed->Some_0.value >= 0,
        units[j].movement_speed->Some_0.value >= 0,
        delta_ms >= 0,
        positions_near(units[i].position, units[j].position, SOCIAL_DISTANCE as int),
        in_padded_field(units[i].position),
        in_padded_field(units[j].position),
        pushed_only_by(units[i].id, units[i].position, positions_of(units), SOCIAL_DISTANCE as int, j),
        pushed_only_by(units[j].id, units[j].position, positions_of(units), SOCIAL_DISTANCE as int, i),
    ensures
        ({
            let a = jostled_all(units, delta_ms)[i].position;
            let b = jostled_all(units, delta_ms)[j].position;
            &&& crate::fixed::magnitude(a.x - b.x) >= crate::fixed::magnitude(units[i].position.x - units[j].position.x)
            &&& crate::fixed::magnitude(a.z - b.z) >= crate::fixed::magnitude(units[i].position.z - units[j].position.z)
            &&& planar_distance_squared(a, b) >= planar_distance_squared(units[i].position, units[j].position)
            &&& steered_all(units, delta_ms)[i].position == a
            &&& steered_all(units, delta_ms)[j].position == b
        }),
{
    let others = positions_of(units);
    let reach = SOCIAL_DISTANCE as int;
    let p = units[i].position;
    let q = units[j].position;
    lemma_total_push_of_one(units[i].id, p, others, reach, j);
    lemma_total_push_of_one(units[j].id, q, others, reach, i);
    assert(others[j] == (units[j].id, q));
    assert(others[i] == (units[i].id, p));
    let push_p = push_of(units[i].id, p, others[j], reach);
    let push_q = push_of(units[j].id, q, others[i], reach);
    lemma_push_points_away(units[i].id, p, others[j], reach);
    lemma_push_points_away(units[j].id, q, others[i], reach);
    let share_p = units[i].movement_speed->Some_0.value * delta_ms;
    let share_q = units[j].movement_speed->Some_0.value * delta_ms;
    assert(share_p >= 0 && share_q >= 0) by (nonlinear_arith)
        requires
            share_p == units[i].movement_speed->Some_0.value * delta_ms,
            share_q == units[j].movement_speed->Some_0.value * delta_ms,
            units[i].movement_speed->Some_0.value >= 0,
            units[j].movement_speed->Some_0.value >= 0,
            delta_ms >= 0,
    ;
    let low_x = spec_game_bounds().min_x + EDGE_PADDING;
    let high_x = spec_game_bounds().max_x - EDGE_PADDING;
    let low_z = spec_game_bounds().min_z + EDGE_PADDING;
    let high_z = spec_game_bounds().max_z - EDGE_PADDING;
    lemma_axis_moves_apart(p.x as int, q.x as int, push_p.x, push_q.x, share_p, share_q, low_x, high_x);
    lemma_axis_moves_apart(p.z as int, q.z as int, push_p.z, push_q.z, share_p, share_q, low_z, high_z);
    let a = jostled_all(units, delta_ms)[i].position;
    let b = jostled_all(units, delta_ms)[j].position;
    assert(a.x == clamped(p.x + quotient(push_p.x * share_p, 1_000_000), low_x, high_x));
    assert(b.x == clamped(q.x + quotient(push_q.x * share_q, 1_000_000), low_x, high_x));
    assert(a.z == clamped(p.z + quotient(push_p.z * share_p, 1_000_000), low_z, high_z));
    assert(b.z == clamped(q.z + quotient(push_q.z * share_q, 1_000_000), low_z, high_z));
    let ax = a.x - b.x;
    let az = a.z - b.z;
    let px = p.x - q.x;
    let pz = p.z - q.z;
    assert(ax * ax + az * az >= px * px + pz * pz) by (nonlinear_arith)
        requires
            (ax >= px && px >= 0) || (ax <= px && px <= 0),
            (az >= pz && pz >= 0) || (az <= pz && pz <= 0),
    ;
}

/// Arrival: a travelling unit that stands within `ARRIVAL_TOLERANCE` of its
/// destination on every axis, that no neighbour pushes, and that moves at most
/// the whole way in one tick, has no destination after that tick. The
/// destination lies in the playing field less its padding and within the
/// tolerance of ground level. The tolerance is an open interval: a unit
/// exactly `ARRIVAL_TOLERANCE` away on some axis has not arrived.
pub proof fn lemma_unit_near_destination_arrives(unit: Unit, others: Seq<(u64, Vec3)>, delta_ms: int)
    requires
        travels(unit),
        positions_near(unit.destination->Some_0.0, unit.position, ARRIVAL_TOLERANCE as int),
        0 <= unit.movement_speed->Some_0.value * delta_ms <= 1_000_000,
        pushed_only_by(unit.id, unit.position, others, SOCIAL_DISTANCE as int, -1),
        in_padded_field(unit.destination->Some_0.0),
        crate::fixed::magnitude(GROUND_LEVEL - unit.destination->Some_0.0.y) < ARRIVAL_TOLERANCE,
    ensures
        travelled(unit, others, delta_ms).destination is None,
{
    let destination = unit.destination->Some_0.0;
    let share = unit.movement_speed->Some_0.value * delta_ms;
    lemma_total_push_of_one(unit.id, unit.position, others, SOCIAL_DISTANCE as int, -1);
    lemma_share_of_step(destination.x - unit.position.x, share);
    lemma_share_of_step(destination.z - unit.position.z, share);
}

} // verus!
