//! The bearing from one point to another, without floating point.
//!
//! The bearing is the angle of the line between two points of the ground
//! plane against the X axis, counted toward Z, in thousandths of a degree from
//! 0 up to, not including, 360 000. The arc tangent behind it is tabulated at
//! whole degrees and taken as a straight line between two entries of the table,
//! which is within a hundredth of a degree of the true angle.

use vstd::prelude::*;
use crate::fixed::magnitude;
use crate::util::Vec3;

verus! {

/// Billionths in one: the scale of a ratio of two lengths.
pub const RATIO_SCALE: i64 = 1_000_000_000;

/// A full turn, in thousandths of a degree.
pub const FULL_TURN: i64 = 360_000;

/// Half a turn, in thousandths of a degree.
pub const HALF_TURN: i64 = 180_000;

/// An eighth of a turn, in thousandths of a degree.
pub const EIGHTH_TURN: i64 = 45_000;

/// A quarter of a turn, in thousandths of a degree.
pub const QUARTER_TURN: i64 = 90_000;

/// The tangents of 0, 1, and so on to 45 whole degrees, in billionths.
pub open spec fn tangents() -> Seq<int> {
    seq![
        0int,
        17_455_065,
        34_920_769,
        52_407_779,
        69_926_812,
        87_488_664,
        105_104_235,
        122_784_561,
        140_540_835,
        158_384_440,
        176_326_981,
        194_380_309,
        212_556_562,
        230_868_191,
        249_328_003,
        267_949_192,
        286_745_386,
        305_730_681,
        324_919_696,
        344_327_613,
        363_970_234,
        383_864_035,
        404_026_226,
        424_474_816,
        445_228_685,
        466_307_658,
        487_732_589,
        509_525_449,
        531_709_432,
        554_309_051,
        577_350_269,
        600_860_619,
        624_869_352,
        649_407_593,
        674_508_517,
        700_207_538,
        726_542_528,
        753_554_050,
        781_285_627,
        809_784_033,
        839_099_631,
        869_286_738,
        900_404_044,
        932_515_086,
        965_688_775,
        1_000_000_000,
    ]
}

/// The largest number of whole degrees up to `limit` whose tangent is at most `ratio`.
pub open spec fn whole_degrees(ratio: int, limit: nat) -> nat
    decreases limit,
{
    if limit == 0 {
        0
    } else if tangents()[limit as int] <= ratio {
        limit
    } else {
        whole_degrees(ratio, (limit - 1) as nat)
    }
}

/// The angle whose tangent is `opposite / adjacent`, for a ratio from nothing
/// to one: the whole degrees below it from the table, and the share of the next
/// degree that the ratio has covered of the step to the next entry.
pub open spec fn arc_tangent(opposite: int, adjacent: int) -> int {
    let ratio = opposite * RATIO_SCALE / adjacent;
    let degrees = whole_degrees(ratio, 45) as int;
    if degrees >= 45 {
        EIGHTH_TURN as int
    } else {
        1000 * degrees + (ratio - tangents()[degrees]) * 1000 / (tangents()[degrees + 1] - tangents()[degrees])
    }
}

/// The angle against the X axis of an offset that goes `along` X and `across`
/// to it, neither of them negative: up to an eighth of a turn from the ratio
/// of `across` to `along`, above it from the ratio of `along` to `across`.
pub open spec fn quadrant_angle(along: int, across: int) -> int {
    if across <= along {
        arc_tangent(across, along)
    } else {
        QUARTER_TURN - arc_tangent(along, across)
    }
}

/// The bearing of the offset `(dx, dz)`: its angle against the X axis,
/// counted toward Z, from 0 up to a full turn. No offset at all has the
/// bearing 0.
pub open spec fn bearing_of(dx: int, dz: int) -> int {
    if dx == 0 && dz == 0 {
        0
    } else {
        let angle = quadrant_angle(magnitude(dx), magnitude(dz));
        if dx >= 0 && dz >= 0 {
            angle
        } else if dx < 0 && dz >= 0 {
            HALF_TURN - angle
        } else if dx < 0 {
            HALF_TURN + angle
        } else {
            (FULL_TURN - angle) % (FULL_TURN as int)
        }
    }
}

/// The bearing from `from` to `to`.
pub open spec fn bearing_between(from: Vec3, to: Vec3) -> int {
    bearing_of(to.x - from.x, to.z - from.z)
}

/// The table rises from entry to entry, from nothing to one.
proof fn lemma_tangents_rise(degrees: int)
    requires
        0 <= degrees < 45,
    ensures
        0 <= tangents()[degrees] < tangents()[degrees + 1] <= RATIO_SCALE,
        tangents().len() == 46,
        tangents()[0] == 0,
        tangents()[45] == RATIO_SCALE,
{
}

/// The whole degrees below a ratio are those of the table entry at or below
/// it: the entry is at most the ratio, and the next entry is above it.
proof fn lemma_whole_degrees(ratio: int, limit: nat)
    requires
        0 <= ratio,
        limit <= 45,
    ensures
        whole_degrees(ratio, limit) <= limit,
        tangents()[whole_degrees(ratio, limit) as int] <= ratio,
        whole_degrees(ratio, limit) < limit ==> ratio < tangents()[whole_degrees(ratio, limit) as int + 1],
    decreases limit,
{
    if limit > 0 {
        lemma_tangents_rise(limit - 1);
        lemma_whole_degrees(ratio, (limit - 1) as nat);
    } else {
        lemma_tangents_rise(0);
    }
}

/// The arc tangent of a ratio from nothing to one lies between nothing and an
/// eighth of a turn; it is nothing for the ratio nothing and an eighth of a
/// turn for the ratio one.
pub proof fn lemma_arc_tangent_in_range(opposite: int, adjacent: int)
    requires
        0 <= opposite <= adjacent,
        0 < adjacent,
    ensures
        0 <= arc_tangent(opposite, adjacent) <= EIGHTH_TURN,
        opposite == 0 ==> arc_tangent(opposite, adjacent) == 0,
        opposite == adjacent ==> arc_tangent(opposite, adjacent) == EIGHTH_TURN,
{
    let ratio = opposite * RATIO_SCALE / adjacent;
    assert(0 <= ratio <= RATIO_SCALE && (opposite == 0 ==> ratio == 0) && (opposite == adjacent ==> ratio
        == RATIO_SCALE)) by (nonlinear_arith)
        requires
            0 <= opposite <= adjacent,
            0 < adjacent,
            ratio == opposite * RATIO_SCALE / adjacent,
    ;
    lemma_whole_degrees(ratio, 45);
    let degrees = whole_degrees(ratio, 45) as int;
    lemma_tangents_rise(0);
    if degrees < 45 {
        lemma_tangents_rise(degrees);
        let covered = ratio - tangents()[degrees];
        let step = tangents()[degrees + 1] - tangents()[degrees];
        assert(0 <= covered * 1000 / step < 1000) by (nonlinear_arith)
            requires
                0 <= covered < step,
        ;
        if opposite == 0 {
            assert(degrees == 0) by {
                if degrees > 0 {
                    lemma_tangents_rise(degrees - 1);
                }
            }
            assert(covered * 1000 / step == 0) by (nonlinear_arith)
                requires
                    covered == 0,
                    step > 0,
            ;
        }
    }
}

/// A ratio that is no smaller has no fewer whole degrees below it.
proof fn lemma_whole_degrees_rise(smaller: int, larger: int, limit: nat)
    requires
        0 <= smaller <= larger,
        limit <= 45,
    ensures
        whole_degrees(smaller, limit) <= whole_degrees(larger, limit),
    decreases limit,
{
    if limit > 0 {
        lemma_whole_degrees_rise(smaller, larger, (limit - 1) as nat);
        if tangents()[limit as int] <= larger && !(tangents()[limit as int] <= smaller) {
            lemma_whole_degrees(smaller, (limit - 1) as nat);
        }
    }
}

/// A quotient that is no smaller as a fraction is no smaller once it is
/// scaled and rounded down.
proof fn lemma_ratio_rises(o1: int, a1: int, o2: int, a2: int)
    requires
        0 <= o1,
        0 < a1,
        0 <= o2,
        0 < a2,
        o1 * a2 <= o2 * a1,
    ensures
        o1 * RATIO_SCALE / a1 <= o2 * RATIO_SCALE / a2,
{
    let first = o1 * RATIO_SCALE / a1;
    let second = o2 * RATIO_SCALE / a2;
    let scale = RATIO_SCALE as int;
    assert(first * a1 <= o1 * scale && o2 * scale < (second + 1) * a2) by (nonlinear_arith)
        requires
            first == o1 * scale / a1,
            second == o2 * scale / a2,
            0 < a1,
            0 < a2,
    ;
    if first > second {
        assert(false) by (nonlinear_arith)
            requires
                first >= second + 1,
                first * a1 <= o1 * scale,
                o2 * scale < (second + 1) * a2,
                o1 * a2 <= o2 * a1,
                0 < a1,
                0 < a2,
                0 <= o1,
                0 <= o2,
                0 <= first,
                0 <= second,
                scale > 0,
        ;
    }
}

/// The arc tangent rises with the ratio: of two ratios from nothing to one,
/// the one that is no smaller has no smaller an angle.
pub proof fn lemma_arc_tangent_rises(o1: int, a1: int, o2: int, a2: int)
    requires
        0 <= o1 <= a1,
        0 < a1,
        0 <= o2 <= a2,
        0 < a2,
        o1 * a2 <= o2 * a1,
    ensures
        arc_tangent(o1, a1) <= arc_tangent(o2, a2),
{
    let first = o1 * RATIO_SCALE / a1;
    let second = o2 * RATIO_SCALE / a2;
    lemma_ratio_rises(o1, a1, o2, a2);
    assert(0 <= first && 0 <= second) by (nonlinear_arith)
        requires
            first == o1 * RATIO_SCALE / a1,
            second == o2 * RATIO_SCALE / a2,
            0 <= o1,
            0 < a1,
            0 <= o2,
            0 < a2,
    ;
    lemma_whole_degrees_rise(first, second, 45);
    lemma_whole_degrees(first, 45);
    lemma_whole_degrees(second, 45);
    lemma_arc_tangent_in_range(o1, a1);
    lemma_arc_tangent_in_range(o2, a2);
    let lower = whole_degrees(first, 45) as int;
    let upper = whole_degrees(second, 45) as int;
    if upper < 45 {
        lemma_tangents_rise(lower);
        lemma_tangents_rise(upper);
        let lower_step = tangents()[lower + 1] - tangents()[lower];
        let upper_step = tangents()[upper + 1] - tangents()[upper];
        let lower_covered = first - tangents()[lower];
        let upper_covered = second - tangents()[upper];
        assert(0 <= lower_covered * 1000 / lower_step < 1000) by (nonlinear_arith)
            requires
                0 <= lower_covered < lower_step,
        ;
        assert(0 <= upper_covered * 1000 / upper_step < 1000) by (nonlinear_arith)
            requires
                0 <= upper_covered < upper_step,
        ;
        if lower == upper {
            assert(lower_covered * 1000 / lower_step <= upper_covered * 1000 / lower_step) by (nonlinear_arith)
                requires
                    0 <= lower_covered <= upper_covered,
                    0 < lower_step,
            ;
        }
    }
}

/// In the quarter of the plane where neither X nor Z is negative, the bearing
/// rises as an offset turns from the X axis toward the Z axis: of two offsets,
/// the one that lies no further round has no greater a bearing.
pub proof fn lemma_bearing_rises(dx1: int, dz1: int, dx2: int, dz2: int)
    requires
        0 <= dx1,
        0 <= dz1,
        0 <= dx2,
        0 <= dz2,
        dx1 != 0 || dz1 != 0,
        dx2 != 0 || dz2 != 0,
        dz1 * dx2 <= dz2 * dx1,
    ensures
        bearing_of(dx1, dz1) <= bearing_of(dx2, dz2),
{
    if dz1 <= dx1 && dz2 <= dx2 {
        lemma_arc_tangent_rises(dz1, dx1, dz2, dx2);
    } else if dz1 <= dx1 {
        lemma_arc_tangent_in_range(dz1, dx1);
        lemma_arc_tangent_in_range(dx2, dz2);
    } else if dz2 <= dx2 {
        assert(false) by (nonlinear_arith)
            requires
                dz1 > dx1,
                dz2 <= dx2,
                dz1 * dx2 <= dz2 * dx1,
                0 <= dx1,
                0 <= dx2,
                0 <= dz2,
                dx2 != 0 || dz2 != 0,
        ;
    } else {
        assert(dx2 * dz1 <= dx1 * dz2) by (nonlinear_arith)
            requires
                dz1 * dx2 <= dz2 * dx1,
        ;
        lemma_arc_tangent_rises(dx2, dz2, dx1, dz1);
    }
}

/// Every bearing lies from 0 up to, not including, a full turn.
pub proof fn lemma_bearing_in_range(dx: int, dz: int)
    ensures
        0 <= bearing_of(dx, dz) < FULL_TURN,
{
    if dx != 0 || dz != 0 {
        let along = magnitude(dx);
        let across = magnitude(dz);
        if across <= along {
            lemma_arc_tangent_in_range(across, along);
        } else {
            lemma_arc_tangent_in_range(along, across);
        }
    }
}

/// Along the axes and the diagonals of the ground plane the bearing is exact.
pub proof fn lemma_bearing_on_axes(d: int)
    requires
        d > 0,
    ensures
        bearing_of(d, 0) == 0,
        bearing_of(d, d) == 45_000,
        bearing_of(0, d) == 90_000,
        bearing_of(-d, d) == 135_000,
        bearing_of(-d, 0) == 180_000,
        bearing_of(-d, -d) == 225_000,
        bearing_of(0, -d) == 270_000,
        bearing_of(d, -d) == 315_000,
{
    lemma_arc_tangent_in_range(0, d);
    lemma_arc_tangent_in_range(d, d);
}

/// The bearing of the opposite offset is half a turn further round.
pub proof fn lemma_bearing_of_opposite(dx: int, dz: int)
    requires
        dx != 0 || dz != 0,
    ensures
        bearing_of(-dx, -dz) == (bearing_of(dx, dz) + HALF_TURN) % (FULL_TURN as int),
{
    let along = magnitude(dx);
    let across = magnitude(dz);
    if across <= along {
        lemma_arc_tangent_in_range(across, along);
    } else {
        lemma_arc_tangent_in_range(along, across);
    }
}

/// The bearing of an offset mirrored at the X axis is the same angle counted
/// the other way round.
pub proof fn lemma_bearing_of_mirrored(dx: int, dz: int)
    ensures
        bearing_of(dx, -dz) == (FULL_TURN - bearing_of(dx, dz)) % (FULL_TURN as int),
{
    if dx != 0 || dz != 0 {
        let along = magnitude(dx);
        let across = magnitude(dz);
        if across <= along {
            lemma_arc_tangent_in_range(across, along);
        } else {
            lemma_arc_tangent_in_range(along, across);
        }
    }
}

/// The entry of the table for `degrees` whole degrees.
fn tangent(degrees: usize) -> (billionths: i64)
    requires
        degrees <= 45,
    ensures
        billionths == tangents()[degrees as int],
{
    let table: [i64; 46] = [
        0,
        17_455_065,
        34_920_769,
        52_407_779,
        69_926_812,
        87_488_664,
        105_104_235,
        122_784_561,
        140_540_835,
        158_384_440,
        176_326_981,
        194_380_309,
        212_556_562,
        230_868_191,
        249_328_003,
        267_949_192,
        286_745_386,
        305_730_681,
        324_919_696,
        344_327_613,
        363_970_234,
        383_864_035,
        404_026_226,
        424_474_816,
        445_228_685,
        466_307_658,
        487_732_589,
        509_525_449,
        531_709_432,
        554_309_051,
        577_350_269,
        600_860_619,
        624_869_352,
        649_407_593,
        674_508_517,
        700_207_538,
        726_542_528,
        753_554_050,
        781_285_627,
        809_784_033,
        839_099_631,
        869_286_738,
        900_404_044,
        932_515_086,
        965_688_775,
        1_000_000_000,
    ];
    table[degrees]
}

/// The arc tangent of `opposite / adjacent`.
fn arc_tangent_of(opposite: i64, adjacent: i64) -> (angle: i64)
    requires
        0 <= opposite <= adjacent,
        0 < adjacent,
    ensures
        angle == arc_tangent(opposite as int, adjacent as int),
        0 <= angle <= EIGHTH_TURN,
{
    proof {
        lemma_arc_tangent_in_range(opposite as int, adjacent as int);
    }
    assert(0 <= opposite * RATIO_SCALE <= adjacent * RATIO_SCALE && opposite * RATIO_SCALE / (adjacent as int)
        <= RATIO_SCALE) by (nonlinear_arith)
        requires
            0 <= opposite <= adjacent,
            0 < adjacent,
    ;
    let ratio: i64 = (opposite as i128 * RATIO_SCALE as i128 / adjacent as i128) as i64;
    let mut degrees: usize = 45;
    while degrees > 0 && tangent(degrees) > ratio
        invariant
            degrees <= 45,
            whole_degrees(ratio as int, 45) == whole_degrees(ratio as int, degrees as nat),
        decreases degrees,
    {
        degrees -= 1;
    }
    if degrees >= 45 {
        EIGHTH_TURN
    } else {
        let below: i64 = tangent(degrees);
        let above: i64 = tangent(degrees + 1);
        proof {
            lemma_whole_degrees(ratio as int, 45);
            lemma_tangents_rise(degrees as int);
        }
        1000 * degrees as i64 + (ratio - below) * 1000 / (above - below)
    }
}

/// The bearing from `from` to `to` on the ground plane.
pub fn bearing(from: &Vec3, to: &Vec3) -> (angle: i64)
    requires
        from.within_limit(),
        to.within_limit(),
    ensures
        angle == bearing_between(*from, *to),
        0 <= angle < FULL_TURN,
{
    let dx: i64 = to.x - from.x;
    let dz: i64 = to.z - from.z;
    proof {
        lemma_bearing_in_range(dx as int, dz as int);
    }
    if dx == 0 && dz == 0 {
        return 0;
    }
    let along: i64 = if dx < 0 { -dx } else { dx };
    let across: i64 = if dz < 0 { -dz } else { dz };
    let angle: i64 = if across <= along {
        arc_tangent_of(across, along)
    } else {
        QUARTER_TURN - arc_tangent_of(along, across)
    };
    if dx >= 0 && dz >= 0 {
        angle
    } else if dx < 0 && dz >= 0 {
        HALF_TURN - angle
    } else if dx < 0 {
        HALF_TURN + angle
    } else {
        (FULL_TURN - angle) % FULL_TURN
    }
}

} // verus!
