//! The fade of the outline that confirms a selection.
//!
//! A blinker counts its remaining time down to nothing and up again to the
//! length of a fade. Each time it has run out it turns and one blink is used up;
//! a blinker with no blinks left is removed.

use vstd::prelude::*;
use crate::components::effects::Blinker;
use crate::components::effects::Fade;
use crate::game::Game;

verus! {

/// Whether a paced tick of `delta_ms` removes the blinker: its timer fires and
/// no blink is left.
pub open spec fn expired(blinker: Blinker, delta_ms: int) -> bool {
    blinker.timer.fires_after(delta_ms) && blinker.number_of_blinks == 0
}

/// The remaining time clamped for the next step: less than nothing becomes
/// nothing, more than the length of a fade becomes that length.
pub open spec fn turning_point(blinker: Blinker) -> int {
    let raised = if blinker.duration < 0 { 0 } else { blinker.duration as int };
    if raised > blinker.duration_const {
        blinker.duration_const as int
    } else {
        raised
    }
}

/// The way the fade runs in the next step: outward where the remaining time
/// is above the length of a fade, else inward where it has run out, else as before.
pub open spec fn next_direction(blinker: Blinker) -> Fade {
    let raised = if blinker.duration < 0 { 0 } else { blinker.duration as int };
    if raised > blinker.duration_const {
        Fade::Out
    } else if blinker.duration < 0 {
        Fade::In
    } else {
        blinker.direction
    }
}

/// How much a step changes the remaining time: the speed and the length of
/// the tick together, added on the way in and taken off on the way out.
pub open spec fn fade_step(blinker: Blinker, delta_ms: int) -> int {
    match next_direction(blinker) {
        Fade::In => blinker.speed + delta_ms,
        Fade::Out => -(blinker.speed + delta_ms),
    }
}

/// A blinker that stays, after a paced tick of `delta_ms`. Its timer has
/// advanced. Where the timer fired, the fade has turned if it was past an end,
/// a blink is used up if it had run out, and the remaining time has moved one step.
pub open spec fn blinked(blinker: Blinker, delta_ms: int) -> Blinker {
    if blinker.timer.fires_after(delta_ms) {
        Blinker {
            timer: blinker.timer.ticked(delta_ms),
            duration: (turning_point(blinker) + fade_step(blinker, delta_ms)) as i64,
            direction: next_direction(blinker),
            number_of_blinks: if blinker.duration < 0 {
                (blinker.number_of_blinks - 1) as usize
            } else {
                blinker.number_of_blinks
            },
            ..blinker
        }
    } else {
        Blinker { timer: blinker.timer.ticked(delta_ms), ..blinker }
    }
}

/// The blinkers after a paced tick of `delta_ms`, in their order: those that
/// expired are gone, the others have blinked.
pub open spec fn blinked_all(blinkers: Seq<Blinker>, delta_ms: int) -> Seq<Blinker>
    decreases blinkers.len(),
{
    if blinkers.len() == 0 {
        Seq::empty()
    } else if expired(blinkers.last(), delta_ms) {
        blinked_all(blinkers.drop_last(), delta_ms)
    } else {
        blinked_all(blinkers.drop_last(), delta_ms).push(blinked(blinkers.last(), delta_ms))
    }
}

/// The positions in `blinkers` of those that a paced tick of `delta_ms`
/// removes, in rising order.
pub open spec fn expired_positions(blinkers: Seq<Blinker>, delta_ms: int) -> Seq<usize>
    decreases blinkers.len(),
{
    if blinkers.len() == 0 {
        Seq::empty()
    } else if expired(blinkers.last(), delta_ms) {
        expired_positions(blinkers.drop_last(), delta_ms).push((blinkers.len() - 1) as usize)
    } else {
        expired_positions(blinkers.drop_last(), delta_ms)
    }
}

/// Every blinker of `blinkers` is small enough to compute with.
pub open spec fn blinkers_within_limit(blinkers: Seq<Blinker>) -> bool {
    forall|i: int| 0 <= i < blinkers.len() ==> (#[trigger] blinkers[i]).within_limit()
}

/// One step of a fade, for a blinker whose timer has just fired and that has
/// a blink left.
fn fade(blinker: &mut Blinker, delta_ms: u32)
    requires
        old(blinker).within_limit(),
        old(blinker).number_of_blinks > 0,
    ensures
        *final(blinker) == (Blinker {
            duration: (turning_point(*old(blinker)) + fade_step(*old(blinker), delta_ms as int)) as i64,
            direction: next_direction(*old(blinker)),
            number_of_blinks: if old(blinker).duration < 0 {
                (old(blinker).number_of_blinks - 1) as usize
            } else {
                old(blinker).number_of_blinks
            },
            ..*old(blinker)
        }),
        final(blinker).within_limit(),
{
    if blinker.duration < 0 {
        blinker.duration = 0;
        blinker.direction = Fade::In;
        blinker.number_of_blinks -= 1;
    }
    if blinker.duration > blinker.duration_const {
        blinker.duration = blinker.duration_const;
        blinker.direction = Fade::Out;
    }
    let step: i64 = blinker.speed + delta_ms as i64;
    match blinker.direction {
        Fade::In => {
            blinker.duration = blinker.duration + step;
        },
        Fade::Out => {
            blinker.duration = blinker.duration - step;
        },
    }
}

/// One tick of the confirmation outlines.
///
/// The cooldown of steering advances by `delta_ms`. Where that makes it fire,
/// every blinker advances its own timer, and where that fires too the blinker
/// is removed if no blink is left to it, and takes one step of its fade
/// otherwise. Where the cooldown does not fire nothing changes. Returned are
/// the positions that the removed blinkers had, so that the host can remove
/// what carried them.
pub fn blink_system(blinkers: &mut Vec<Blinker>, game: &mut Game, delta_ms: u32) -> (removed: Vec<usize>)
    requires
        blinkers_within_limit(old(blinkers)@),
    ensures
        final(game).moved_on(*old(game), delta_ms as int),
        final(blinkers)@ == (if old(game).mechanics.move_cooldown.fires_after(delta_ms as int) {
            blinked_all(old(blinkers)@, delta_ms as int)
        } else {
            old(blinkers)@
        }),
        removed@ == (if old(game).mechanics.move_cooldown.fires_after(delta_ms as int) {
            expired_positions(old(blinkers)@, delta_ms as int)
        } else {
            Seq::empty()
        }),
        blinkers_within_limit(final(blinkers)@),
{
    let mut removed: Vec<usize> = Vec::new();
    game.mechanics.move_cooldown.tick(delta_ms);
    if game.mechanics.move_cooldown.finished() {
        let mut kept: Vec<Blinker> = Vec::new();
        let mut i: usize = 0;
        while i < blinkers.len()
            invariant
                i <= blinkers.len(),
                blinkers@ == old(blinkers)@,
                blinkers_within_limit(blinkers@),
                kept@ == blinked_all(blinkers@.take(i as int), delta_ms as int),
                removed@ == expired_positions(blinkers@.take(i as int), delta_ms as int),
                blinkers_within_limit(kept@),
            decreases blinkers.len() - i,
        {
            let mut blinker = blinkers[i];
            proof {
                assert(blinkers@.take(i + 1).drop_last() =~= blinkers@.take(i as int));
                assert(blinkers@.take(i + 1).last() == blinkers@[i as int]);
            }
            blinker.timer.tick(delta_ms);
            if !blinker.timer.just_finished() {
                kept.push(blinker);
            } else if blinker.number_of_blinks > 0 {
                fade(&mut blinker, delta_ms);
                kept.push(blinker);
            } else {
                removed.push(i);
            }
            i += 1;
        }
        assert(blinkers@.take(i as int) =~= blinkers@);
        *blinkers = kept;
    }
    removed
}

/// A blinker with no blinks left is removed by the first paced tick in which
/// its timer fires; until then only its timer changes.
pub proof fn lemma_spent_blinker_is_removed(blinker: Blinker, delta_ms: int)
    requires
        blinker.number_of_blinks == 0,
    ensures
        blinker.timer.fires_after(delta_ms) ==> blinked_all(seq![blinker], delta_ms) == Seq::<Blinker>::empty(),
        !blinker.timer.fires_after(delta_ms) ==> blinked_all(seq![blinker], delta_ms) == seq![
            Blinker { timer: blinker.timer.ticked(delta_ms), ..blinker },
        ],
{
    let one = seq![blinker];
    assert(one.drop_last() =~= Seq::<Blinker>::empty());
    assert(one.last() == blinker);
    assert(blinked_all(one.drop_last(), delta_ms) =~= Seq::<Blinker>::empty());
    if !blinker.timer.fires_after(delta_ms) {
        assert(blinked_all(one, delta_ms) =~= seq![Blinker { timer: blinker.timer.ticked(delta_ms), ..blinker }]);
    }
}

/// A tick never gives a blinker a blink: a blinker that stays has as many
/// blinks left as before, or one fewer where it had run out.
pub proof fn lemma_blinks_never_grow(blinker: Blinker, delta_ms: int)
    requires
        !expired(blinker, delta_ms),
    ensures
        blinked(blinker, delta_ms).number_of_blinks <= blinker.number_of_blinks,
        blinked(blinker, delta_ms).number_of_blinks + 1 >= blinker.number_of_blinks,
        blinked(blinker, delta_ms).number_of_blinks < blinker.number_of_blinks <==> blinker.timer.fires_after(
            delta_ms,
        ) && blinker.duration < 0,
{
}

/// Every blinker either stays or is reported as removed.
pub proof fn lemma_blinkers_only_leave(blinkers: Seq<Blinker>, delta_ms: int)
    ensures
        blinked_all(blinkers, delta_ms).len() + expired_positions(blinkers, delta_ms).len() == blinkers.len(),
    decreases blinkers.len(),
{
    if blinkers.len() > 0 {
        lemma_blinkers_only_leave(blinkers.drop_last(), delta_ms);
    }
}

} // verus!
