//! One tick of the whole simulation, in its fixed order.
//!
//! Pointer input comes first, then the confirmation of a selection, then
//! steering, then turning. A destination that a press issues is therefore seen
//! by steering and by turning in the same tick.

use vstd::prelude::*;
use crate::components::mechanics::world_within_limit;
use crate::components::mechanics::Destination;
use crate::components::mechanics::Unit;
use crate::game::Game;
use crate::plugins::cursor::after_mouse;
use crate::plugins::cursor::after_selection;
use crate::plugins::cursor::commanded_all;
use crate::plugins::cursor::confirmed_box_lines;
use crate::plugins::cursor::mouse_system;
use crate::plugins::cursor::picked_all;
use crate::plugins::cursor::selection_system;
use crate::plugins::cursor::units_after_mouse;
use crate::plugins::cursor::ConfirmationBox;
use crate::plugins::cursor::Cursor;
use crate::plugins::cursor::CursorView;
use crate::systems::movement::positions_of;
use crate::systems::movement::steered_all;
use crate::systems::movement::steered_unit;
use crate::systems::movement::steering_system;
use crate::systems::rotation::rotate_system;
use crate::systems::rotation::rotated;
use crate::systems::rotation::rotated_all;
use crate::util::Vec3;

verus! {

/// What the pointer did since the last tick.
#[derive(Clone, Copy, Debug, PartialEq, Eq)]
pub struct PointerInput {
    /// The point of the ground under the pointer, if the host found one.
    pub pointer: Option<Vec3>,
    /// Whether the button went down.
    pub just_pressed: bool,
    /// Whether the button went up.
    pub just_released: bool,
}

/// The cursor after the pointer input of a tick.
pub open spec fn cursor_after_input(cursor: CursorView, input: PointerInput) -> CursorView {
    after_mouse(cursor, input.pointer, input.just_pressed, input.just_released)
}

/// The units after the pointer input of a tick.
pub open spec fn units_after_input(units: Seq<Unit>, cursor: CursorView, input: PointerInput) -> Seq<Unit> {
    units_after_mouse(units, cursor, input.pointer, input.just_pressed, input.just_released)
}

/// The units after pointer input and the confirmation of a selection.
pub open spec fn units_after_selection(units: Seq<Unit>, cursor: CursorView, input: PointerInput) -> Seq<Unit> {
    let pointed = cursor_after_input(cursor, input);
    if pointed.just_selected {
        picked_all(units_after_input(units, cursor, input), pointed.xyz1, pointed.xyz2)
    } else {
        units_after_input(units, cursor, input)
    }
}

/// The units after pointer input, confirmation and steering.
pub open spec fn units_after_steering(
    units: Seq<Unit>,
    cursor: CursorView,
    game: Game,
    input: PointerInput,
    delta_ms: int,
) -> Seq<Unit> {
    if game.mechanics.move_cooldown.fires_after(delta_ms) {
        steered_all(units_after_selection(units, cursor, input), delta_ms)
    } else {
        units_after_selection(units, cursor, input)
    }
}

/// The units after a whole tick: pointer input, confirmation, steering and
/// turning, in this order.
pub open spec fn units_after_tick(
    units: Seq<Unit>,
    cursor: CursorView,
    game: Game,
    input: PointerInput,
    delta_ms: int,
) -> Seq<Unit> {
    if game.mechanics.rotate_cooldown.fires_after(delta_ms) {
        rotated_all(units_after_steering(units, cursor, game, input, delta_ms), delta_ms)
    } else {
        units_after_steering(units, cursor, game, input, delta_ms)
    }
}

/// The cursor after a whole tick: the pointer input is taken in, and a
/// selection that it confirmed is made. `just_selected` is never left raised.
pub open spec fn cursor_after_tick(units: Seq<Unit>, cursor: CursorView, input: PointerInput) -> CursorView {
    after_selection(cursor_after_input(cursor, input), units_after_input(units, cursor, input))
}

/// A move command and a confirmed rectangle leave a world within the limit
/// within the limit.
proof fn lemma_input_keeps_the_limit(units: Seq<Unit>, cursor: CursorView, input: PointerInput)
    requires
        world_within_limit(units),
        cursor.wf(),
        input.pointer matches Some(xyz) ==> xyz.within_limit(),
    ensures
        world_within_limit(units_after_input(units, cursor, input)),
        world_within_limit(units_after_selection(units, cursor, input)),
{
    let commanded = units_after_input(units, cursor, input);
    assert(cursor_after_input(cursor, input).location.within_limit());
    assert forall|i: int| 0 <= i < commanded.len() implies (#[trigger] commanded[i]).within_limit() by {
        assert(units[i].within_limit());
    }
    let selected = units_after_selection(units, cursor, input);
    assert forall|i: int| 0 <= i < selected.len() implies (#[trigger] selected[i]).within_limit() by {
        assert(commanded[i].within_limit());
    }
}

/// A destination that a press issues is obeyed in the same tick: where both
/// cooldowns fire, a unit of the selection has, after the tick, been sent to
/// the point under the pointer, then steered toward it among the units as the
/// command left them, then turned toward it from where steering put it.
pub proof fn lemma_command_is_obeyed_at_once(
    units: Seq<Unit>,
    cursor: CursorView,
    game: Game,
    input: PointerInput,
    delta_ms: int,
    i: int,
)
    requires
        0 <= i < units.len(),
        input.just_pressed,
        cursor.selected_units.contains(units[i].id),
        !cursor_after_input(cursor, input).just_selected,
        game.mechanics.move_cooldown.fires_after(delta_ms),
        game.mechanics.rotate_cooldown.fires_after(delta_ms),
    ensures
        ({
            let target = cursor_after_input(cursor, input).location;
            let sent = commanded_all(units, cursor.selected_units, target);
            &&& sent[i].destination == Some(Destination(target))
            &&& sent[i].rotating is Some
            &&& units_after_tick(units, cursor, game, input, delta_ms)[i] == rotated(
                steered_unit(sent[i], positions_of(sent), delta_ms),
                delta_ms,
            )
        }),
{
    assert(!cursor.selected_units.is_empty());
}

/// One tick of the simulation.
///
/// Runs, in this order: the pointer input, the confirmation of a selection,
/// steering, and turning. Each of the two cooldowns advances once by
/// `delta_ms`. Returned is the outline to show where the tick confirmed a
/// selection.
pub fn tick(
    game: &mut Game,
    cursor: &mut Cursor,
    units: &mut Vec<Unit>,
    input: PointerInput,
    delta_ms: u32,
) -> (outline: Option<ConfirmationBox>)
    requires
        old(cursor)@.wf(),
        input.pointer matches Some(xyz) ==> xyz.within_limit(),
        world_within_limit(old(units)@),
    ensures
        final(cursor)@ == cursor_after_tick(old(units)@, old(cursor)@, input),
        final(cursor)@.wf(),
        !final(cursor)@.just_selected,
        final(units)@ == units_after_tick(old(units)@, old(cursor)@, *old(game), input, delta_ms as int),
        world_within_limit(final(units)@),
        final(game).mechanics.move_cooldown == old(game).mechanics.move_cooldown.ticked(delta_ms as int),
        final(game).mechanics.rotate_cooldown == old(game).mechanics.rotate_cooldown.ticked(delta_ms as int),
        final(game).mechanics.direction == old(game).mechanics.direction,
        final(game).board == old(game).board,
        final(game).score == old(game).score,
        outline is Some <==> cursor_after_input(old(cursor)@, input).just_selected,
        outline matches Some(shown) ==> shown.lines@ == confirmed_box_lines(
            cursor_after_input(old(cursor)@, input).xyz1,
            cursor_after_input(old(cursor)@, input).xyz2,
        ),
{
    proof {
        lemma_input_keeps_the_limit(units@, cursor@, input);
    }
    mouse_system(cursor, units, input.pointer, input.just_pressed, input.just_released);
    let outline = selection_system(cursor, units);
    steering_system(units, game, delta_ms);
    rotate_system(units, game, delta_ms);
    outline
}

} // verus!
