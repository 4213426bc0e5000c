//! The skeleton and the clips it plays.

use vstd::prelude::*;

verus! {

/// Position of the idle clip among the clips of a skeleton.
pub const IDLE: usize = 0;

/// Position of the walking clip.
pub const WALK: usize = 1;

/// Position of the clip played on entering the world.
pub const SPAWN: usize = 2;

/// Position of the clip played on noticing an enemy.
pub const ALERTED: usize = 3;

/// Position of the running clip.
pub const RUN: usize = 4;

/// Position of the first of the attack clips.
pub const FIRST_ATTACK: usize = 5;

/// Position after the last of the attack clips.
pub const END_OF_ATTACKS: usize = 7;

/// A skeleton: the position of the clip it plays.
#[derive(Clone, Copy, Debug, Default, PartialEq, Eq)]
pub struct Skelly {
    pub current_animation: usize,
}

/// A number drawn by `rand::Rng::gen_range` on the generator of the thread,
/// `rand::thread_rng`, from the half-open range `low..high`. The documentation
/// of `gen_range` promises a value of the range, and a panic on an empty one.
#[verifier::external_body]
fn random_in_range(low: usize, high: usize) -> (drawn: usize)
    requires
        low < high,
    ensures
        low <= drawn < high,
{
    rand::Rng::gen_range(&mut rand::thread_rng(), low..high)
}

impl Skelly {
    pub fn walk(&mut self)
        ensures
            final(self).current_animation == WALK,
    {
        self.current_animation = WALK;
    }

    pub fn run(&mut self)
        ensures
            final(self).current_animation == RUN,
    {
        self.current_animation = RUN;
    }

    pub fn idle(&mut self)
        ensures
            final(self).current_animation == IDLE,
    {
        self.current_animation = IDLE;
    }

    /// Plays one of the attack clips, chosen at random.
    pub fn attack(&mut self)
        ensures
            FIRST_ATTACK <= final(self).current_animation < END_OF_ATTACKS,
    {
        let drawn = random_in_range(FIRST_ATTACK, END_OF_ATTACKS);
        self.attack_with(drawn);
    }

    /// Plays the attack clip at position `drawn`.
    pub fn attack_with(&mut self, drawn: usize)
        requires
            FIRST_ATTACK <= drawn < END_OF_ATTACKS,
        ensures
            final(self).current_animation == drawn,
    {
        self.current_animation = drawn;
    }

    pub fn spawn(&mut self)
        ensures
            final(self).current_animation == SPAWN,
    {
        self.current_animation = SPAWN;
    }

    pub fn alerted(&mut self)
        ensures
            final(self).current_animation == ALERTED,
    {
        self.current_animation = ALERTED;
    }
}

} // verus!
