//! The state that the systems share.

use vstd::prelude::*;
use crate::components::mechanics::Direction;
use crate::components::mechanics::Lifetime;
use crate::systems::spawn_plane::Cell;
use crate::timer::Timer;

verus! {

/// The timers that pace the systems.
#[derive(Clone, Copy, Debug)]
pub struct Mechanics {
    /// Paces steering and the fade of the confirmation outline.
    pub move_cooldown: Timer,
    /// Paces turning.
    pub rotate_cooldown: Timer,
    pub direction: Direction,
}

/// The simulation context: one per running simulation, handed to every system.
#[derive(Debug)]
pub struct Game {
    pub board: Vec<Vec<Cell>>,
    pub mechanics: Mechanics,
    pub score: i32,
}

impl Game {
    /// `self` is `before` with the cooldown of steering advanced by one tick
    /// of `delta_ms`, and nothing else changed.
    pub open spec fn moved_on(self, before: Game, delta_ms: int) -> bool {
        &&& self.mechanics.move_cooldown == before.mechanics.move_cooldown.ticked(delta_ms)
        &&& self.mechanics.move_cooldown.follows(before.mechanics.move_cooldown, delta_ms)
        &&& self.mechanics.rotate_cooldown == before.mechanics.rotate_cooldown
        &&& self.mechanics.direction == before.mechanics.direction
        &&& self.board == before.board
        &&& self.score == before.score
    }

    /// `self` is `before` with the cooldown of turning advanced by one tick of
    /// `delta_ms`, and nothing else changed.
    pub open spec fn turned_on(self, before: Game, delta_ms: int) -> bool {
        &&& self.mechanics.rotate_cooldown == before.mechanics.rotate_cooldown.ticked(delta_ms)
        &&& self.mechanics.rotate_cooldown.follows(before.mechanics.rotate_cooldown, delta_ms)
        &&& self.mechanics.move_cooldown == before.mechanics.move_cooldown
        &&& self.mechanics.direction == before.mechanics.direction
        &&& self.board == before.board
        &&& self.score == before.score
    }

    /// A game with an empty board, no score, and cooldowns of the given lengths
    /// that have not run yet.
    pub fn new(move_cooldown_ms: u64, rotate_cooldown_ms: u64) -> (game: Game)
        requires
            move_cooldown_ms > 0,
            rotate_cooldown_ms > 0,
        ensures
            game.board@.len() == 0,
            game.score == 0,
            game.mechanics.direction == (Direction { desired: 0, current: 0 }),
            game.mechanics.move_cooldown.duration() == move_cooldown_ms,
            game.mechanics.move_cooldown.elapsed() == 0,
            game.mechanics.rotate_cooldown.duration() == rotate_cooldown_ms,
            game.mechanics.rotate_cooldown.elapsed() == 0,
    {
        Game {
            board: Vec::new(),
            mechanics: Mechanics {
                move_cooldown: Timer::from_millis(move_cooldown_ms),
                rotate_cooldown: Timer::from_millis(rotate_cooldown_ms),
                direction: Direction { desired: 0, current: 0 },
            },
            score: 0,
        }
    }
}

/// The lifetimes after a tick of `delta_ms`, in their order: each has
/// advanced, and those that ran out are gone.
pub open spec fn outlived(lifetimes: Seq<Lifetime>, delta_ms: int) -> Seq<Lifetime>
    decreases lifetimes.len(),
{
    if lifetimes.len() == 0 {
        Seq::empty()
    } else if lifetimes.last().timer.fires_after(delta_ms) {
        outlived(lifetimes.drop_last(), delta_ms)
    } else {
        outlived(lifetimes.drop_last(), delta_ms).push(
            Lifetime { timer: lifetimes.last().timer.ticked(delta_ms) },
        )
    }
}

/// The positions in `lifetimes` of those that run out in a tick of
/// `delta_ms`, in rising order.
pub open spec fn run_out(lifetimes: Seq<Lifetime>, delta_ms: int) -> Seq<usize>
    decreases lifetimes.len(),
{
    if lifetimes.len() == 0 {
        Seq::empty()
    } else if lifetimes.last().timer.fires_after(delta_ms) {
        run_out(lifetimes.drop_last(), delta_ms).push((lifetimes.len() - 1) as usize)
    } else {
        run_out(lifetimes.drop_last(), delta_ms)
    }
}

/// One tick of everything that lives for a limited time.
///
/// Every lifetime advances by `delta_ms`. One whose timer fires is removed;
/// returned are the positions that the removed ones had, so that the host can
/// remove what carried them.
pub fn lifetime_despawn_system(lifetimes: &mut Vec<Lifetime>, delta_ms: u32) -> (removed: Vec<usize>)
    ensures
        final(lifetimes)@ == outlived(old(lifetimes)@, delta_ms as int),
        removed@ == run_out(old(lifetimes)@, delta_ms as int),
{
    let mut removed: Vec<usize> = Vec::new();
    let mut kept: Vec<Lifetime> = Vec::new();
    let mut i: usize = 0;
    while i < lifetimes.len()
        invariant
            i <= lifetimes.len(),
            lifetimes@ == old(lifetimes)@,
            kept@ == outlived(lifetimes@.take(i as int), delta_ms as int),
            removed@ == run_out(lifetimes@.take(i as int), delta_ms as int),
        decreases lifetimes.len() - i,
    {
        proof {
            assert(lifetimes@.take(i + 1).drop_last() =~= lifetimes@.take(i as int));
            assert(lifetimes@.take(i + 1).last() == lifetimes@[i as int]);
        }
        let mut lifetime = lifetimes[i];
        lifetime.timer.tick(delta_ms);
        if lifetime.timer.just_finished() {
            removed.push(i);
        } else {
            kept.push(lifetime);
        }
        i += 1;
    }
    assert(lifetimes@.take(i as int) =~= lifetimes@);
    *lifetimes = kept;
    removed
}

} // verus!
