//! Selection by dragging a rectangle, and the move command that follows it.
//!
//! A press anchors a drag box, every tick while the button is held stretches
//! the box to the pointer, and the release confirms the rectangle that the box
//! spans. The units in that rectangle become the selection. The next press sends
//! the selection to the point under the pointer and empties it.

use std::collections::HashSet;
use vstd::prelude::*;
use crate::components::effects::Blinker;
use crate::components::mechanics::Destination;
use crate::components::mechanics::Rotating;
use crate::components::mechanics::Selected;
use crate::components::mechanics::Unit;
use crate::constants::constants::AFTER_SELECTION_BLINKS;
use crate::constants::constants::AFTER_SELECTION_BLINK_DURATION;
use crate::constants::constants::AFTER_SELECTION_BLINK_SPEED;
use crate::constants::constants::CONFIRMED_BOX_LEVEL;
use crate::constants::constants::DRAG_BOX_LIFT;
use crate::constants::constants::SELECTION_Y1;
use crate::constants::constants::SELECTION_Y2;
use crate::constants::constants::THICKNESS_OF_SELECTION_LINES;
use crate::constants::plane::game_bounds;
use crate::constants::plane::spec_game_bounds;
use crate::fixed::quotient;
use crate::fixed::LIMIT;
use crate::util::keep_in_bounds;
use crate::util::kept_in_bounds;
use crate::util::Vec3;

verus! {

broadcast use vstd::std_specs::hash::group_hash_axioms;

/// A point of the world under the pointer.
#[derive(Clone, Copy, Debug, PartialEq, Eq, Structural)]
pub struct Location {
    pub xyz: Vec3,
}

/// The box that a drag of the pointer stretches: where its centre is and how
/// far it reaches along each axis. An extent is negative where the pointer
/// went back past the point of the press.
#[derive(Clone, Copy, Debug, PartialEq, Eq, Structural)]
pub struct BoundingBox {
    pub translation: Vec3,
    pub scale: Vec3,
}

/// An axis-aligned box given by its six faces.
#[derive(Clone, Copy, Debug, PartialEq, Eq, Structural)]
pub struct BoundingBoxArea {
    pub min_x: i64,
    pub max_x: i64,
    pub min_y: i64,
    pub max_y: i64,
    pub min_z: i64,
    pub max_z: i64,
}

/// The drag in progress and what the last drag selected.
#[derive(Debug)]
pub struct Selection {
    /// The drag box, from the press to the release.
    pub entity: Option<BoundingBox>,
    /// Names of the selected units.
    pub selected_units: HashSet<u64>,
    /// Raised by a release, for the one run of `selection_system` that follows.
    pub just_selected: bool,
}

/// The pointer and the selection it made.
#[derive(Debug)]
pub struct Cursor {
    /// Where the pointer is.
    pub location: Location,
    /// Where the pointer was when the button went down.
    pub pressed_location: Location,
    pub pressed: bool,
    pub selection: Selection,
    /// Least corner of the last confirmed rectangle.
    pub xyz1: Vec3,
    /// Greatest corner of the last confirmed rectangle.
    pub xyz2: Vec3,
}

/// A `Cursor` with its set of selected units as a mathematical set.
pub struct CursorView {
    pub location: Vec3,
    pub pressed_location: Vec3,
    pub pressed: bool,
    pub drag_box: Option<BoundingBox>,
    pub selected_units: Set<u64>,
    pub just_selected: bool,
    pub xyz1: Vec3,
    pub xyz2: Vec3,
}

impl View for Cursor {
    type V = CursorView;

    open spec fn view(&self) -> CursorView {
        CursorView {
            location: self.location.xyz,
            pressed_location: self.pressed_location.xyz,
            pressed: self.pressed,
            drag_box: self.selection.entity,
            selected_units: self.selection.selected_units@,
            just_selected: self.selection.just_selected,
            xyz1: self.xyz1,
            xyz2: self.xyz2,
        }
    }
}

/// The outline to show when a selection is confirmed: four thin boxes along
/// the edges of the rectangle, and the blinker that fades each of them.
#[derive(Debug)]
pub struct ConfirmationBox {
    pub lines: Vec<BoundingBoxArea>,
    pub blinker: Blinker,
}

/// Every coordinate of the point that stands for "no point".
pub const OFF_FIELD: i64 = -1_000;

/// The point that stands for "no point": one unit below zero on every axis.
pub open spec fn spec_nowhere() -> Vec3 {
    Vec3 { x: OFF_FIELD, y: OFF_FIELD, z: OFF_FIELD }
}

/// The point that stands for "no point".
#[verifier::when_used_as_spec(spec_nowhere)]
pub fn nowhere() -> (point: Vec3)
    ensures
        point == spec_nowhere(),
{
    Vec3 { x: OFF_FIELD, y: OFF_FIELD, z: OFF_FIELD }
}

/// Every component of `v` lies in `[-bound, bound]`.
pub open spec fn reaches_at_most(v: Vec3, bound: int) -> bool {
    &&& -bound <= v.x <= bound
    &&& -bound <= v.y <= bound
    &&& -bound <= v.z <= bound
}

/// `low` is no greater than `high` on any axis.
pub open spec fn corners_ordered(low: Vec3, high: Vec3) -> bool {
    low.x <= high.x && low.y <= high.y && low.z <= high.z
}

impl CursorView {
    /// The corners of the confirmed rectangle are ordered, and every
    /// coordinate is small enough to compute with.
    pub open spec fn wf(self) -> bool {
        &&& self.location.within_limit()
        &&& self.pressed_location.within_limit()
        &&& (self.drag_box matches Some(drag_box) ==> reaches_at_most(drag_box.translation, 4 * LIMIT)
            && reaches_at_most(drag_box.scale, 4 * LIMIT))
        &&& reaches_at_most(self.xyz1, 16 * LIMIT)
        &&& reaches_at_most(self.xyz2, 16 * LIMIT)
        &&& corners_ordered(self.xyz1, self.xyz2)
    }
}

/// The drag box between the point of the press and the pointer: centred
/// halfway between the two and lifted off the ground, as wide and as deep as
/// the pointer has moved, and flat.
pub open spec fn dragged_box(anchor: Vec3, pointer: Vec3) -> BoundingBox {
    BoundingBox {
        translation: Vec3 {
            x: (anchor.x + quotient(pointer.x - anchor.x, 2)) as i64,
            y: (anchor.y + quotient(pointer.y - anchor.y, 2) + DRAG_BOX_LIFT) as i64,
            z: (anchor.z + quotient(pointer.z - anchor.z, 2)) as i64,
        },
        scale: Vec3 { x: (pointer.x - anchor.x) as i64, y: 0, z: (pointer.z - anchor.z) as i64 },
    }
}

/// The edge of a box on one axis that lies before its centre by half the extent.
pub open spec fn near_edge(centre: int, extent: int) -> int {
    centre - quotient(extent, 2)
}

/// The edge of a box on one axis that lies one extent after `near_edge`.
pub open spec fn far_edge(centre: int, extent: int) -> int {
    centre + extent - quotient(extent, 2)
}

/// The lesser of two integers.
pub open spec fn lesser(a: int, b: int) -> int {
    if a <= b {
        a
    } else {
        b
    }
}

/// The greater of two integers.
pub open spec fn greater(a: int, b: int) -> int {
    if a <= b {
        b
    } else {
        a
    }
}

/// The rectangle that a drag box spans: its two opposite corners, the first
/// the lesser on every axis, both at the fixed heights of the selection box.
pub open spec fn confirmed_corners(drag_box: BoundingBox) -> (Vec3, Vec3) {
    let x1 = near_edge(drag_box.translation.x as int, drag_box.scale.x as int);
    let x2 = far_edge(drag_box.translation.x as int, drag_box.scale.x as int);
    let z1 = near_edge(drag_box.translation.z as int, drag_box.scale.z as int);
    let z2 = far_edge(drag_box.translation.z as int, drag_box.scale.z as int);
    (
        Vec3 { x: lesser(x1, x2) as i64, y: SELECTION_Y1, z: lesser(z1, z2) as i64 },
        Vec3 { x: greater(x1, x2) as i64, y: SELECTION_Y2, z: greater(z1, z2) as i64 },
    )
}

/// Where the pointer is after the host reported `pointer`: the reported point
/// with X and Z clamped into the playing field, or where it was.
pub open spec fn pointer_location(before: Vec3, pointer: Option<Vec3>) -> Vec3 {
    match pointer {
        Some(xyz) => kept_in_bounds(spec_game_bounds(), xyz, 0),
        None => before,
    }
}

/// The cursor after one tick of pointer input.
///
/// The pointer moves first. A press records where the pointer is; a release
/// forgets it. A drag box that exists is stretched to the pointer while the
/// button is held, and a release turns it into the confirmed rectangle and
/// raises `just_selected`. A press then clears the rectangle, anchors a fresh
/// drag box under the pointer and empties the selection.
pub open spec fn after_mouse(
    before: CursorView,
    pointer: Option<Vec3>,
    just_pressed: bool,
    just_released: bool,
) -> CursorView {
    let location = pointer_location(before.location, pointer);
    let pressed_location = if just_released {
        spec_nowhere()
    } else if just_pressed {
        location
    } else {
        before.pressed_location
    };
    let pressed = if just_released {
        false
    } else if just_pressed {
        true
    } else {
        before.pressed
    };
    let held_box = match before.drag_box {
        Some(drag_box) => Some(
            if pressed {
                dragged_box(pressed_location, location)
            } else {
                drag_box
            },
        ),
        None => None,
    };
    let confirmed = just_released && held_box is Some;
    CursorView {
        location,
        pressed_location,
        pressed,
        drag_box: if just_pressed {
            Some(dragged_box(location, location))
        } else if confirmed {
            None
        } else {
            held_box
        },
        selected_units: if just_pressed {
            Set::empty()
        } else {
            before.selected_units
        },
        just_selected: before.just_selected || confirmed,
        xyz1: if just_pressed {
            spec_nowhere()
        } else if confirmed {
            confirmed_corners(held_box->Some_0).0
        } else {
            before.xyz1
        },
        xyz2: if just_pressed {
            spec_nowhere()
        } else if confirmed {
            confirmed_corners(held_box->Some_0).1
        } else {
            before.xyz2
        },
    }
}

/// A unit after a move command to `target` went to the units in `selected`:
/// a selected unit travels to `target` and turns toward it; no unit is marked
/// as selected any longer.
pub open spec fn commanded(unit: Unit, selected: Set<u64>, target: Vec3) -> Unit {
    if selected.contains(unit.id) {
        Unit { destination: Some(Destination(target)), rotating: Some(Rotating), selected: None, ..unit }
    } else {
        Unit { selected: None, ..unit }
    }
}

/// Every unit of `units` after a move command to `target`.
pub open spec fn commanded_all(units: Seq<Unit>, selected: Set<u64>, target: Vec3) -> Seq<Unit> {
    Seq::new(units.len(), |i: int| commanded(units[i], selected, target))
}

/// The units after one tick of pointer input: a press while units are
/// selected sends those units to the point under the pointer; anything else
/// leaves every unit as it is.
pub open spec fn units_after_mouse(
    units: Seq<Unit>,
    before: CursorView,
    pointer: Option<Vec3>,
    just_pressed: bool,
    just_released: bool,
) -> Seq<Unit> {
    if just_pressed && !before.selected_units.is_empty() {
        commanded_all(units, before.selected_units, pointer_location(before.location, pointer))
    } else {
        units
    }
}

/// Whether `position` lies in the rectangle between `low` and `high` on the
/// ground plane, edges included. Heights are not compared.
pub open spec fn in_rectangle(position: Vec3, low: Vec3, high: Vec3) -> bool {
    low.x <= position.x <= high.x && low.z <= position.z <= high.z
}

/// Whether a confirmed rectangle selects `unit`.
pub open spec fn picks(unit: Unit, low: Vec3, high: Vec3) -> bool {
    unit.pickable is Some && in_rectangle(unit.position, low, high)
}

/// A unit after the rectangle between `low` and `high` was confirmed.
pub open spec fn picked(unit: Unit, low: Vec3, high: Vec3) -> Unit {
    if picks(unit, low, high) {
        Unit { selected: Some(Selected), ..unit }
    } else {
        unit
    }
}

/// Every unit of `units` after the rectangle between `low` and `high` was confirmed.
pub open spec fn picked_all(units: Seq<Unit>, low: Vec3, high: Vec3) -> Seq<Unit> {
    Seq::new(units.len(), |i: int| picked(units[i], low, high))
}

/// The names of the units of `units` that the rectangle between `low` and `high` selects.
pub open spec fn picked_ids(units: Seq<Unit>, low: Vec3, high: Vec3) -> Set<u64> {
    Set::new(
        |id: u64|
            exists|i: int| 0 <= i < units.len() && picks(#[trigger] units[i], low, high) && units[i].id == id,
    )
}

/// The four lines of the outline around the rectangle between `low` and
/// `high`, in the order in which they are drawn: the far edge along X, the near
/// edge along X, the far edge along Z, the near edge along Z.
pub open spec fn confirmed_box_lines(low: Vec3, high: Vec3) -> Seq<BoundingBoxArea> {
    let t = THICKNESS_OF_SELECTION_LINES as int;
    seq![
        BoundingBoxArea {
            min_x: low.x,
            max_x: (high.x - t) as i64,
            min_y: CONFIRMED_BOX_LEVEL,
            max_y: CONFIRMED_BOX_LEVEL,
            min_z: (high.z - t) as i64,
            max_z: (high.z + t) as i64,
        },
        BoundingBoxArea {
            min_x: (high.x + t) as i64,
            max_x: (low.x + t) as i64,
            min_y: CONFIRMED_BOX_LEVEL,
            max_y: CONFIRMED_BOX_LEVEL,
            min_z: (low.z - t) as i64,
            max_z: (low.z + t) as i64,
        },
        BoundingBoxArea {
            min_x: (high.x - t) as i64,
            max_x: (high.x + t) as i64,
            min_y: CONFIRMED_BOX_LEVEL,
            max_y: CONFIRMED_BOX_LEVEL,
            min_z: (low.z + t) as i64,
            max_z: (high.z + t) as i64,
        },
        BoundingBoxArea {
            min_x: (low.x - t) as i64,
            max_x: (low.x + t) as i64,
            min_y: CONFIRMED_BOX_LEVEL,
            max_y: CONFIRMED_BOX_LEVEL,
            min_z: (low.z - t) as i64,
            max_z: (high.z + t) as i64,
        },
    ]
}

impl Cursor {
    /// A cursor at the origin with nothing pressed, dragged or selected.
    pub fn new() -> (cursor: Cursor)
        ensures
            cursor@ == (CursorView {
                location: Vec3 { x: 0, y: 0, z: 0 },
                pressed_location: Vec3 { x: 0, y: 0, z: 0 },
                pressed: false,
                drag_box: None,
                selected_units: Set::empty(),
                just_selected: false,
                xyz1: Vec3 { x: 0, y: 0, z: 0 },
                xyz2: Vec3 { x: 0, y: 0, z: 0 },
            }),
            cursor@.wf(),
    {
        let origin = Vec3 { x: 0, y: 0, z: 0 };
        Cursor {
            location: Location { xyz: origin },
            pressed_location: Location { xyz: origin },
            pressed: false,
            selection: Selection { entity: None, selected_units: HashSet::new(), just_selected: false },
            xyz1: origin,
            xyz2: origin,
        }
    }

    /// Whether the unit named `id` is selected.
    pub fn is_selected(&self, id: u64) -> (selected: bool)
        ensures
            selected == self@.selected_units.contains(id),
    {
        self.selection.selected_units.contains(&id)
    }

    /// Whether the coordinates of the cursor are small enough to compute with
    /// and the corners of its rectangle are ordered.
    pub fn is_well_formed(&self) -> (well_formed: bool)
        ensures
            well_formed == self@.wf(),
    {
        let box_fits = match self.selection.entity {
            Some(drag_box) => reaches(&drag_box.translation, 4 * LIMIT) && reaches(&drag_box.scale, 4 * LIMIT),
            None => true,
        };
        self.location.xyz.is_within_limit() && self.pressed_location.xyz.is_within_limit() && box_fits
            && reaches(&self.xyz1, 16 * LIMIT) && reaches(&self.xyz2, 16 * LIMIT) && self.xyz1.x
            <= self.xyz2.x && self.xyz1.y <= self.xyz2.y && self.xyz1.z <= self.xyz2.z
    }
}

/// Whether every component of `v` lies in `[-bound, bound]`.
fn reaches(v: &Vec3, bound: i64) -> (within: bool)
    requires
        0 <= bound <= 16 * LIMIT,
    ensures
        within == reaches_at_most(*v, bound as int),
{
    -bound <= v.x && v.x <= bound && -bound <= v.y && v.y <= bound && -bound <= v.z && v.z <= bound
}

/// Stretches a drag box from `anchor` to `pointer`.
fn drag(anchor: Vec3, pointer: Vec3) -> (drag_box: BoundingBox)
    requires
        anchor.within_limit(),
        pointer.within_limit(),
    ensures
        drag_box == dragged_box(anchor, pointer),
        reaches_at_most(drag_box.translation, 4 * LIMIT),
        reaches_at_most(drag_box.scale, 4 * LIMIT),
{
    let dx: i64 = pointer.x - anchor.x;
    let dy: i64 = pointer.y - anchor.y;
    let dz: i64 = pointer.z - anchor.z;
    BoundingBox {
        translation: Vec3 { x: anchor.x + dx / 2, y: anchor.y + dy / 2 + DRAG_BOX_LIFT, z: anchor.z + dz / 2 },
        scale: Vec3 { x: dx, y: 0, z: dz },
    }
}

/// The two corners of the rectangle that `drag_box` spans.
fn confirm(drag_box: &BoundingBox) -> (corners: (Vec3, Vec3))
    requires
        reaches_at_most(drag_box.translation, 4 * LIMIT),
        reaches_at_most(drag_box.scale, 4 * LIMIT),
    ensures
        corners == confirmed_corners(*drag_box),
        reaches_at_most(corners.0, 16 * LIMIT),
        reaches_at_most(corners.1, 16 * LIMIT),
        corners_ordered(corners.0, corners.1),
{
    let x1: i64 = drag_box.translation.x - drag_box.scale.x / 2;
    let z1: i64 = drag_box.translation.z - drag_box.scale.z / 2;
    let x2: i64 = drag_box.translation.x + drag_box.scale.x - drag_box.scale.x / 2;
    let z2: i64 = drag_box.translation.z + drag_box.scale.z - drag_box.scale.z / 2;
    let min_x: i64 = if x1 <= x2 { x1 } else { x2 };
    let max_x: i64 = if x1 <= x2 { x2 } else { x1 };
    let min_z: i64 = if z1 <= z2 { z1 } else { z2 };
    let max_z: i64 = if z1 <= z2 { z2 } else { z1 };
    (Vec3 { x: min_x, y: SELECTION_Y1, z: min_z }, Vec3 { x: max_x, y: SELECTION_Y2, z: max_z })
}

/// Sends every unit named in `selected` to `target` and clears the selection
/// mark of every unit.
fn issue_commands(units: &mut Vec<Unit>, selected: &HashSet<u64>, target: Vec3)
    ensures
        final(units)@ == commanded_all(old(units)@, selected@, target),
{
    let ghost before = units@;
    let mut i: usize = 0;
    while i < units.len()
        invariant
            i <= units.len(),
            units.len() == before.len(),
            forall|k: int| 0 <= k < i ==> units@[k] == commanded(before[k], selected@, target),
            forall|k: int| i <= k < units.len() ==> units@[k] == before[k],
        decreases units.len() - i,
    {
        let mut unit = units[i];
        if selected.contains(&unit.id) {
            unit.destination = Some(Destination(target));
            unit.rotating = Some(Rotating);
        }
        unit.selected = None;
        units.set(i, unit);
        i += 1;
    }
    assert(units@ =~= commanded_all(before, selected@, target));
}

/// The four lines of the outline around the confirmed rectangle of `cursor`.
pub fn get_selection_confirmed_box(cursor: &Cursor) -> (lines: Vec<BoundingBoxArea>)
    requires
        cursor@.wf(),
    ensures
        lines@ == confirmed_box_lines(cursor.xyz1, cursor.xyz2),
{
    let low_x_out: i64 = cursor.xyz1.x - THICKNESS_OF_SELECTION_LINES;
    let low_x_in: i64 = cursor.xyz1.x + THICKNESS_OF_SELECTION_LINES;
    let high_x_in: i64 = cursor.xyz2.x - THICKNESS_OF_SELECTION_LINES;
    let high_x_out: i64 = cursor.xyz2.x + THICKNESS_OF_SELECTION_LINES;
    let low_z_out: i64 = cursor.xyz1.z - THICKNESS_OF_SELECTION_LINES;
    let low_z_in: i64 = cursor.xyz1.z + THICKNESS_OF_SELECTION_LINES;
    let high_z_in: i64 = cursor.xyz2.z - THICKNESS_OF_SELECTION_LINES;
    let high_z_out: i64 = cursor.xyz2.z + THICKNESS_OF_SELECTION_LINES;
    let mut lines: Vec<BoundingBoxArea> = Vec::new();
    lines.push(
        BoundingBoxArea {
            min_x: cursor.xyz1.x,
            max_x: high_x_in,
            min_y: CONFIRMED_BOX_LEVEL,
            max_y: CONFIRMED_BOX_LEVEL,
            min_z: high_z_in,
            max_z: high_z_out,
        },
    );
    lines.push(
        BoundingBoxArea {
            min_x: high_x_out,
            max_x: low_x_in,
            min_y: CONFIRMED_BOX_LEVEL,
            max_y: CONFIRMED_BOX_LEVEL,
            min_z: low_z_out,
            max_z: low_z_in,
        },
    );
    lines.push(
        BoundingBoxArea {
            min_x: high_x_in,
            max_x: high_x_out,
            min_y: CONFIRMED_BOX_LEVEL,
            max_y: CONFIRMED_BOX_LEVEL,
            min_z: low_z_in,
            max_z: high_z_out,
        },
    );
    lines.push(
        BoundingBoxArea {
            min_x: low_x_out,
            max_x: low_x_in,
            min_y: CONFIRMED_BOX_LEVEL,
            max_y: CONFIRMED_BOX_LEVEL,
            min_z: low_z_out,
            max_z: high_z_out,
        },
    );
    assert(lines@ =~= confirmed_box_lines(cursor.xyz1, cursor.xyz2));
    lines
}

/// One tick of pointer input.
///
/// `pointer` is the point of the ground under the pointer, if the host found
/// one; `just_pressed` and `just_released` say whether the button went down or
/// up since the last tick.
pub fn mouse_system(
    cursor: &mut Cursor,
    units: &mut Vec<Unit>,
    pointer: Option<Vec3>,
    just_pressed: bool,
    just_released: bool,
)
    requires
        old(cursor)@.wf(),
        pointer matches Some(xyz) ==> xyz.within_limit(),
    ensures
        final(cursor)@ == after_mouse(old(cursor)@, pointer, just_pressed, just_released),
        final(cursor)@.wf(),
        final(units)@ == units_after_mouse(old(units)@, old(cursor)@, pointer, just_pressed, just_released),
{
    if let Some(xyz) = pointer {
        cursor.location.xyz = keep_in_bounds(game_bounds(), xyz, 0);
    }
    if just_pressed {
        cursor.pressed = true;
        cursor.pressed_location = cursor.location;
    }
    if just_released {
        cursor.pressed = false;
        cursor.pressed_location = Location { xyz: nowhere() };
    }
    if let Some(found) = cursor.selection.entity {
        let mut drag_box = found;
        if cursor.pressed {
            drag_box = drag(cursor.pressed_location.xyz, cursor.location.xyz);
            cursor.selection.entity = Some(drag_box);
        }
        if just_released {
            let corners = confirm(&drag_box);
            cursor.selection.just_selected = true;
            cursor.xyz1 = corners.0;
            cursor.xyz2 = corners.1;
            cursor.selection.entity = None;
        }
    }
    if just_pressed {
        cursor.xyz1 = nowhere();
        cursor.xyz2 = nowhere();
        cursor.selection.entity = Some(drag(cursor.location.xyz, cursor.location.xyz));
        if !cursor.selection.selected_units.is_empty() {
            issue_commands(units, &cursor.selection.selected_units, cursor.location.xyz);
            cursor.selection.selected_units.clear();
        }
    }
    assert(final(cursor)@.selected_units =~= after_mouse(
        old(cursor)@,
        pointer,
        just_pressed,
        just_released,
    ).selected_units);
}

/// The cursor after `selection_system` ran over `units`: a raised
/// `just_selected` is lowered, and the units that the confirmed rectangle
/// selects have joined the selection.
pub open spec fn after_selection(before: CursorView, units: Seq<Unit>) -> CursorView {
    CursorView {
        just_selected: false,
        selected_units: if before.just_selected {
            before.selected_units.union(picked_ids(units, before.xyz1, before.xyz2))
        } else {
            before.selected_units
        },
        ..before
    }
}

/// Marks the units inside a rectangle that was just confirmed.
///
/// Where `just_selected` is raised, every pickable unit inside the confirmed
/// rectangle is marked as selected and joins the selection, and the outline to
/// show is returned. `just_selected` is lowered whether or not a unit was inside.
pub fn selection_system(cursor: &mut Cursor, units: &mut Vec<Unit>) -> (outline: Option<ConfirmationBox>)
    requires
        old(cursor)@.wf(),
    ensures
        final(cursor)@ == after_selection(old(cursor)@, old(units)@),
        final(cursor)@.wf(),
        final(units)@ == (if old(cursor)@.just_selected {
            picked_all(old(units)@, old(cursor)@.xyz1, old(cursor)@.xyz2)
        } else {
            old(units)@
        }),
        outline is Some <==> old(cursor)@.just_selected,
        outline matches Some(shown) ==> shown.lines@ == confirmed_box_lines(old(cursor)@.xyz1, old(cursor)@.xyz2)
            && shown.blinker.starts_with(
            AFTER_SELECTION_BLINK_SPEED,
            AFTER_SELECTION_BLINK_DURATION,
            AFTER_SELECTION_BLINKS,
        ),
{
    let mut outline: Option<ConfirmationBox> = None;
    if cursor.selection.just_selected {
        let lines = get_selection_confirmed_box(cursor);
        let blinker = Blinker::new(AFTER_SELECTION_BLINK_SPEED, AFTER_SELECTION_BLINK_DURATION, AFTER_SELECTION_BLINKS);
        outline = Some(ConfirmationBox { lines, blinker });
        let ghost before = units@;
        let ghost chosen = cursor@.selected_units;
        let low = cursor.xyz1;
        let high = cursor.xyz2;
        let mut i: usize = 0;
        assert(chosen =~= chosen.union(picked_ids(before.take(0), low, high)));
        while i < units.len()
            invariant
                i <= units.len(),
                units.len() == before.len(),
                low == old(cursor)@.xyz1,
                high == old(cursor)@.xyz2,
                chosen == old(cursor)@.selected_units,
                cursor@.selected_units == chosen.union(picked_ids(before.take(i as int), low, high)),
                (CursorView { selected_units: chosen, ..cursor@ }) == old(cursor)@,
                forall|k: int| 0 <= k < i ==> units@[k] == picked(before[k], low, high),
                forall|k: int| i <= k < units.len() ==> units@[k] == before[k],
            decreases units.len() - i,
        {
            let mut unit = units[i];
            let inside = unit.pickable.is_some() && low.x <= unit.position.x && unit.position.x <= high.x && low.z
                <= unit.position.z && unit.position.z <= high.z;
            proof {
                lemma_picked_ids_grow(before, i as int, low, high);
            }
            if inside {
                unit.selected = Some(Selected);
                units.set(i, unit);
                cursor.selection.selected_units.insert(unit.id);
            }
            assert(cursor@.selected_units =~= chosen.union(picked_ids(before.take(i + 1), low, high)));
            i += 1;
        }
        assert(before.take(i as int) =~= before);
        assert(units@ =~= picked_all(before, low, high));
    }
    cursor.selection.just_selected = false;
    outline
}

/// The names selected among the first `i + 1` units are those selected among
/// the first `i`, and the name of unit `i` where the rectangle selects it.
proof fn lemma_picked_ids_grow(units: Seq<Unit>, i: int, low: Vec3, high: Vec3)
    requires
        0 <= i < units.len(),
    ensures
        picked_ids(units.take(i + 1), low, high) == (if picks(units[i], low, high) {
            picked_ids(units.take(i), low, high).insert(units[i].id)
        } else {
            picked_ids(units.take(i), low, high)
        }),
{
    let shorter = units.take(i);
    let longer = units.take(i + 1);
    let grown = if picks(units[i], low, high) {
        picked_ids(shorter, low, high).insert(units[i].id)
    } else {
        picked_ids(shorter, low, high)
    };
    assert forall|id: u64| picked_ids(longer, low, high).contains(id) implies grown.contains(id) by {
        let k = choose|k: int| 0 <= k < longer.len() && picks(#[trigger] longer[k], low, high) && longer[k].id == id;
        if k < i {
            assert(shorter[k] == longer[k]);
        }
    }
    assert forall|id: u64| grown.contains(id) implies picked_ids(longer, low, high).contains(id) by {
        if picks(units[i], low, high) && id == units[i].id {
            assert(longer[i] == units[i]);
        } else {
            let k = choose|k: int|
                0 <= k < shorter.len() && picks(#[trigger] shorter[k], low, high) && shorter[k].id == id;
            assert(longer[k] == shorter[k]);
        }
    }
    assert(picked_ids(longer, low, high) =~= grown);
}

/// A drag from `anchor` to `pointer` confirms the rectangle whose corners are
/// the lesser and the greater of the two points on each axis of the ground
/// plane, at the fixed heights of the selection box.
pub proof fn lemma_drag_confirms_its_ends(anchor: Vec3, pointer: Vec3)
    requires
        anchor.within_limit(),
        pointer.within_limit(),
    ensures
        confirmed_corners(dragged_box(anchor, pointer)).0 == (Vec3 {
            x: lesser(anchor.x as int, pointer.x as int) as i64,
            y: SELECTION_Y1,
            z: lesser(anchor.z as int, pointer.z as int) as i64,
        }),
        confirmed_corners(dragged_box(anchor, pointer)).1 == (Vec3 {
            x: greater(anchor.x as int, pointer.x as int) as i64,
            y: SELECTION_Y2,
            z: greater(anchor.z as int, pointer.z as int) as i64,
        }),
{
}

/// The corners of a confirmed rectangle are ordered on every axis.
pub proof fn lemma_confirmed_corners_ordered(drag_box: BoundingBox)
    requires
        reaches_at_most(drag_box.translation, 4 * LIMIT),
        reaches_at_most(drag_box.scale, 4 * LIMIT),
    ensures
        corners_ordered(confirmed_corners(drag_box).0, confirmed_corners(drag_box).1),
{
}

/// A unit is in the selection that a rectangle makes exactly if some pickable
/// unit of that name stands inside the rectangle.
pub proof fn lemma_picked_ids_are_inside(units: Seq<Unit>, low: Vec3, high: Vec3, id: u64)
    ensures
        picked_ids(units, low, high).contains(id) <==> exists|i: int|
            0 <= i < units.len() && (#[trigger] units[i]).pickable is Some && in_rectangle(units[i].position, low, high)
                && units[i].id == id,
{
}

/// A confirmed rectangle marks no unit outside it: a unit that is marked
/// after the confirmation was marked before, or is pickable and stands inside
/// the rectangle. No mark is taken away, and nothing else about a unit changes.
pub proof fn lemma_marks_only_inside(unit: Unit, low: Vec3, high: Vec3)
    ensures
        picked(unit, low, high).selected is Some ==> unit.selected is Some || (unit.pickable is Some
            && in_rectangle(unit.position, low, high)),
        unit.selected is Some ==> picked(unit, low, high).selected is Some,
        picked(unit, low, high) == (Unit { selected: picked(unit, low, high).selected, ..unit }),
{
}

/// Only a press while units are selected changes a unit: every other tick of
/// pointer input leaves all units as they are, marks included.
pub proof fn lemma_only_a_command_changes_units(
    units: Seq<Unit>,
    before: CursorView,
    pointer: Option<Vec3>,
    just_pressed: bool,
    just_released: bool,
)
    requires
        !just_pressed || before.selected_units.is_empty(),
    ensures
        units_after_mouse(units, before, pointer, just_pressed, just_released) == units,
{
}

/// A move command leaves no unit marked as selected, and gives every unit of
/// the selection the commanded point as its destination.
pub proof fn lemma_command_reaches_selection(units: Seq<Unit>, selected: Set<u64>, target: Vec3, i: int)
    requires
        0 <= i < units.len(),
    ensures
        commanded_all(units, selected, target)[i].selected is None,
        selected.contains(units[i].id) ==> commanded_all(units, selected, target)[i].destination == Some(
            Destination(target),
        ) && commanded_all(units, selected, target)[i].rotating is Some,
        !selected.contains(units[i].id) ==> commanded_all(units, selected, target)[i].destination
            == units[i].destination,
{
}

} // verus!
