//! Points, the proximity test and the bounds clamp.

use vstd::prelude::*;
use crate::fixed::magnitude;
use crate::fixed::within_limit;
use crate::fixed::MAP_LIMIT;

verus! {

/// A point or an offset in world space, in thousandths of a world unit.
/// The ground plane is X/Z; Y is height.
#[derive(Clone, Copy, Debug, PartialEq, Eq, Structural)]
pub struct Vec3 {
    pub x: i64,
    pub y: i64,
    pub z: i64,
}

impl Vec3 {
    /// The point `(x, y, z)`.
    pub fn new(x: i64, y: i64, z: i64) -> (v: Vec3)
        ensures
            v == (Vec3 { x, y, z }),
    {
        Vec3 { x, y, z }
    }

    /// Every component lies in `[-LIMIT, LIMIT]`.
    pub open spec fn within_limit(self) -> bool {
        within_limit(self.x as int) && within_limit(self.y as int) && within_limit(self.z as int)
    }

    /// Whether every component lies in `[-LIMIT, LIMIT]`.
    pub fn is_within_limit(&self) -> (within: bool)
        ensures
            within == self.within_limit(),
    {
        crate::fixed::is_within_limit(self.x) && crate::fixed::is_within_limit(self.y)
            && crate::fixed::is_within_limit(self.z)
    }
}

/// An axis-aligned rectangle of the ground plane.
#[derive(Clone, Copy, Debug, PartialEq, Eq, Structural)]
pub struct Bounds2D {
    pub min_x: i64,
    pub min_z: i64,
    pub max_x: i64,
    pub max_z: i64,
}

impl Bounds2D {
    /// The edges moved inward by `padding` are still 64-bit values.
    pub open spec fn padded_edges_fit(self, padding: int) -> bool {
        &&& i64::MIN <= self.min_x + padding <= i64::MAX
        &&& i64::MIN <= self.max_x - padding <= i64::MAX
        &&& i64::MIN <= self.min_z + padding <= i64::MAX
        &&& i64::MIN <= self.max_z - padding <= i64::MAX
    }
}

/// `v2` lies strictly inside the cube of half-width `sensitivity` around `v1`:
/// on every axis the two differ by less than `sensitivity`. The interval is
/// open, so a point exactly `sensitivity` away on some axis is not near.
pub open spec fn positions_near(v1: Vec3, v2: Vec3, sensitivity: int) -> bool {
    &&& magnitude(v2.x - v1.x) < sensitivity
    &&& magnitude(v2.y - v1.y) < sensitivity
    &&& magnitude(v2.z - v1.z) < sensitivity
}

/// `v` moved into `[low, high]`: raised to `low` first, then lowered to `high`.
/// Where `low > high` the result is `high`.
pub open spec fn clamped(v: int, low: int, high: int) -> int {
    let raised = if v < low { low } else { v };
    if raised > high {
        high
    } else {
        raised
    }
}

/// `pos` with X and Z clamped into `bounds` shrunk by `padding`; Y is kept.
pub open spec fn kept_in_bounds(bounds: Bounds2D, pos: Vec3, padding: int) -> Vec3 {
    Vec3 {
        x: clamped(pos.x as int, bounds.min_x + padding, bounds.max_x - padding) as i64,
        y: pos.y,
        z: clamped(pos.z as int, bounds.min_z + padding, bounds.max_z - padding) as i64,
    }
}

/// `value` carried from the range `[in_min, in_max]` to `[out_min, out_max]` in
/// proportion, the quotient rounded toward zero. A range of zero width carries
/// every value to `out_min`.
pub open spec fn mapped_to_range(value: int, in_min: int, in_max: int, out_min: int, out_max: int) -> int {
    crate::fixed::quotient((value - in_min) * (out_max - out_min), in_max - in_min) + out_min
}

/// Linear rescaling of `value` from one range to another.
pub fn map_value_to_range(value: i64, in_min: i64, in_max: i64, out_min: i64, out_max: i64) -> (mapped: i64)
    requires
        -MAP_LIMIT <= value <= MAP_LIMIT,
        -MAP_LIMIT <= in_min <= MAP_LIMIT,
        -MAP_LIMIT <= in_max <= MAP_LIMIT,
        -MAP_LIMIT <= out_min <= MAP_LIMIT,
        -MAP_LIMIT <= out_max <= MAP_LIMIT,
        i64::MIN <= mapped_to_range(value as int, in_min as int, in_max as int, out_min as int, out_max as int)
            <= i64::MAX,
    ensures
        mapped == mapped_to_range(value as int, in_min as int, in_max as int, out_min as int, out_max as int),
{
    let span: i128 = in_max as i128 - in_min as i128;
    if span == 0 {
        return out_min;
    }
    let offset: i128 = value as i128 - in_min as i128;
    let width: i128 = out_max as i128 - out_min as i128;
    assert(-0x1000_0000_0000_0000_0000_0000_0000_0000 <= offset * width
        <= 0x1000_0000_0000_0000_0000_0000_0000_0000) by (nonlinear_arith)
        requires
            -0x4000_0000_0000_0000 <= offset <= 0x4000_0000_0000_0000,
            -0x4000_0000_0000_0000 <= width <= 0x4000_0000_0000_0000,
    ;
    let scaled: i128 = crate::fixed::divide(offset * width, span);
    (scaled + out_min as i128) as i64
}

/// Whether `v2` is within `sensitivity` of `v1` on every axis.
pub fn are_positions_near(v1: &Vec3, v2: &Vec3, sensitivity: i64) -> (near: bool)
    ensures
        near == positions_near(*v1, *v2, sensitivity as int),
{
    let s: i128 = sensitivity as i128;
    let x1: i128 = v1.x as i128;
    let y1: i128 = v1.y as i128;
    let z1: i128 = v1.z as i128;
    let x2: i128 = v2.x as i128;
    let y2: i128 = v2.y as i128;
    let z2: i128 = v2.z as i128;
    x2 > x1 - s && x2 < x1 + s && y2 > y1 - s && y2 < y1 + s && z2 > z1 - s && z2 < z1 + s
}

/// Clamps the X and Z of `pos` into `bounds` shrunk by `padding` on each side.
pub fn keep_in_bounds(bounds: Bounds2D, pos: Vec3, padding: i64) -> (kept: Vec3)
    requires
        bounds.padded_edges_fit(padding as int),
    ensures
        kept == kept_in_bounds(bounds, pos, padding as int),
        kept.x == clamped(pos.x as int, bounds.min_x + padding, bounds.max_x - padding),
        kept.z == clamped(pos.z as int, bounds.min_z + padding, bounds.max_z - padding),
{
    let mut pos = pos;
    if pos.x < bounds.min_x + padding {
        pos.x = bounds.min_x + padding
    };
    if pos.x > bounds.max_x - padding {
        pos.x = bounds.max_x - padding
    };
    if pos.z < bounds.min_z + padding {
        pos.z = bounds.min_z + padding
    };
    if pos.z > bounds.max_z - padding {
        pos.z = bounds.max_z - padding
    };
    pos
}

/// The proximity test is symmetric in its two points.
pub proof fn lemma_near_is_symmetric(v1: Vec3, v2: Vec3, sensitivity: int)
    ensures
        positions_near(v1, v2, sensitivity) == positions_near(v2, v1, sensitivity),
{
}

/// Nothing is near anything at a sensitivity of zero or less.
pub proof fn lemma_nothing_near_without_reach(v1: Vec3, v2: Vec3, sensitivity: int)
    requires
        sensitivity <= 0,
    ensures
        !positions_near(v1, v2, sensitivity),
{
}

/// Where the padded rectangle is not empty, a clamped coordinate lies in it,
/// and a coordinate already in it is left alone.
pub proof fn lemma_clamped_in_range(v: int, low: int, high: int)
    requires
        low <= high,
    ensures
        low <= clamped(v, low, high) <= high,
        low <= v <= high ==> clamped(v, low, high) == v,
{
}

/// Every point that `keep_in_bounds` returns lies in the padded rectangle,
/// where that rectangle is not empty, at the height it came with.
pub proof fn lemma_kept_in_bounds(bounds: Bounds2D, pos: Vec3, padding: int)
    requires
        bounds.padded_edges_fit(padding),
        bounds.min_x + padding <= bounds.max_x - padding,
        bounds.min_z + padding <= bounds.max_z - padding,
    ensures
        bounds.min_x + padding <= kept_in_bounds(bounds, pos, padding).x <= bounds.max_x - padding,
        bounds.min_z + padding <= kept_in_bounds(bounds, pos, padding).z <= bounds.max_z - padding,
        kept_in_bounds(bounds, pos, padding).y == pos.y,
{
}

} // verus!
