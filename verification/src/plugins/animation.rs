//! Which clip the animation player is to play.
//!
//! The host owns the player and the clips. These rules read what each
//! animated unit wants and name the clips to start, in order; the host starts
//! each on repeat, so the last one named is the one that goes on playing.

use vstd::prelude::*;

verus! {

/// Where each kind of motion is found among the clips of a unit.
#[derive(Clone, Copy, Debug, Default, PartialEq, Eq)]
pub struct AnimationLibrary {
    pub walk: usize,
    pub run: usize,
    pub idle: usize,
    pub attack: usize,
    pub spawn: usize,
    pub alerted: usize,
}

/// The clips of a unit, each named by the number the host gave it; `None`
/// until the clips are loaded.
#[derive(Debug, Default, PartialEq, Eq)]
pub struct Animations(pub Option<Vec<u64>>);

/// What an animated unit plays.
#[derive(Debug, Default, PartialEq, Eq)]
pub struct Animated {
    /// Position of the wanted clip among `animations`.
    pub current_animation: usize,
    pub animations: Animations,
    pub animation_library: AnimationLibrary,
}

impl Animated {
    /// The wanted clip exists: where the clips are loaded, `current_animation`
    /// is a position among them.
    pub open spec fn wf(self) -> bool {
        self.animations.0 matches Some(clips) ==> self.current_animation < clips@.len()
    }

    /// The clip that the unit wants played, if its clips are loaded.
    pub open spec fn wanted(self) -> Option<u64> {
        match self.animations.0 {
            Some(clips) => Some(clips@[self.current_animation as int]),
            None => None,
        }
    }

    /// Whether the wanted clip exists.
    pub fn is_well_formed(&self) -> (well_formed: bool)
        ensures
            well_formed == self.wf(),
    {
        match &self.animations.0 {
            Some(clips) => self.current_animation < clips.len(),
            None => true,
        }
    }
}

/// The clips that the units want played, in the order of the units; a unit
/// whose clips are not loaded names none.
pub open spec fn clips_to_play(units: Seq<Animated>) -> Seq<u64>
    decreases units.len(),
{
    if units.len() == 0 {
        Seq::empty()
    } else {
        match units.last().wanted() {
            Some(clip) => clips_to_play(units.drop_last()).push(clip),
            None => clips_to_play(units.drop_last()),
        }
    }
}

/// Every unit of `units` wants a clip that exists.
pub open spec fn all_well_formed(units: Seq<Animated>) -> bool {
    forall|i: int| 0 <= i < units.len() ==> (#[trigger] units[i]).wf()
}

/// The wanted clip of every unit whose clips are loaded.
fn wanted_clips(unit_animations: &Vec<Animated>) -> (clips: Vec<u64>)
    requires
        all_well_formed(unit_animations@),
    ensures
        clips@ == clips_to_play(unit_animations@),
{
    let mut clips: Vec<u64> = Vec::new();
    let mut i: usize = 0;
    while i < unit_animations.len()
        invariant
            i <= unit_animations.len(),
            all_well_formed(unit_animations@),
            clips@ == clips_to_play(unit_animations@.take(i as int)),
        decreases unit_animations.len() - i,
    {
        proof {
            assert(unit_animations@.take(i + 1).drop_last() =~= unit_animations@.take(i as int));
            assert(unit_animations@.take(i + 1).last() == unit_animations@[i as int]);
            assert(unit_animations@[i as int].wf());
        }
        let unit = &unit_animations[i];
        if let Some(animations) = &unit.animations.0 {
            clips.push(animations[unit.current_animation]);
        }
        i += 1;
    }
    assert(unit_animations@.take(i as int) =~= unit_animations@);
    clips
}

/// Starts the animations once the scene is loaded.
///
/// Until it has started a clip, and while the host has exactly one player,
/// this names the wanted clip of every unit whose clips are loaded, and where
/// it named one it sets `done`. Once `done` is set it names nothing.
pub fn setup_animations(unit_animations: &Vec<Animated>, player: bool, done: &mut bool) -> (started: Vec<u64>)
    requires
        all_well_formed(unit_animations@),
    ensures
        started@ == (if !*old(done) && player {
            clips_to_play(unit_animations@)
        } else {
            Seq::empty()
        }),
        *final(done) == (*old(done) || started@.len() > 0),
{
    if !*done && player {
        let started = wanted_clips(unit_animations);
        if started.len() > 0 {
            *done = true;
        }
        started
    } else {
        Vec::new()
    }
}

/// Keeps the animations going.
///
/// While the host has exactly one player this names the wanted clip of every
/// unit whose clips are loaded. The frame counter is set to 2 in any case.
pub fn animation_control(
    player: bool,
    unit_animations: &Vec<Animated>,
    current_animation_frame: &mut usize,
) -> (started: Vec<u64>)
    requires
        all_well_formed(unit_animations@),
    ensures
        started@ == (if player {
            clips_to_play(unit_animations@)
        } else {
            Seq::empty()
        }),
        *final(current_animation_frame) == 2,
{
    *current_animation_frame = 2;
    if player {
        wanted_clips(unit_animations)
    } else {
        Vec::new()
    }
}

/// As many clips are named as there are units with loaded clips, and never
/// more than there are units.
pub proof fn lemma_one_clip_per_loaded_unit(units: Seq<Animated>)
    ensures
        clips_to_play(units).len() <= units.len(),
        clips_to_play(units).len() == 0 <==> forall|i: int|
            0 <= i < units.len() ==> (#[trigger] units[i]).animations.0 is None,
    decreases units.len(),
{
    if units.len() > 0 {
        let shorter = units.drop_last();
        lemma_one_clip_per_loaded_unit(shorter);
        if clips_to_play(units).len() == 0 {
            assert forall|i: int| 0 <= i < units.len() implies (#[trigger] units[i]).animations.0 is None by {
                if i < shorter.len() {
                    assert(shorter[i] == units[i]);
                }
            }
        } else if units.last().wanted() is None {
            let i = choose|i: int| 0 <= i < shorter.len() && !((#[trigger] shorter[i]).animations.0 is None);
            assert(units[i] == shorter[i]);
        } else {
            assert(units[units.len() - 1] == units.last());
        }
    }
}

} // verus!
