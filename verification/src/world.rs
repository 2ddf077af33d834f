//! The simulation step: every lemming ticks once, in the order in which the
//! lemmings were added, on one shared map.

use crate::animation::{FrameTable, FrameView};
use crate::lemming::{Lemming, LemmingView};
use crate::terrain::{Grid, TerrainMap};
use vstd::prelude::*;

verus! {

/// The lemmings of a list as contracts see them.
pub open spec fn views(lemmings: Seq<Lemming>) -> Seq<LemmingView> {
    Seq::new(lemmings.len(), |i: int| lemmings[i]@)
}

/// The step from lemming `from` on: each lemming in turn ticks on the map as
/// the lemming before it left it.
pub open spec fn step_from(
    lemmings: Seq<LemmingView>,
    grid: Grid,
    frames: Map<Seq<char>, FrameView>,
    dt: u64,
    from: int,
) -> (Seq<LemmingView>, Grid)
    decreases lemmings.len() - from,
{
    if from < 0 || from >= lemmings.len() {
        (lemmings, grid)
    } else {
        let ticked = lemmings[from].tick(grid, frames, dt);
        step_from(lemmings.update(from, ticked.0), ticked.1, frames, dt, from + 1)
    }
}

/// One step of the whole simulation: the lemmings and the map after it.
pub open spec fn step(
    lemmings: Seq<LemmingView>,
    grid: Grid,
    frames: Map<Seq<char>, FrameView>,
    dt: u64,
) -> (Seq<LemmingView>, Grid) {
    step_from(lemmings, grid, frames, dt, 0)
}

/// Whether the clock of the lemming can count `dt` more time units.
pub open spec fn clock_fits(lemming: LemmingView, dt: u64) -> bool {
    lemming.animation.frame_time + dt <= u64::MAX
}

/// Whether the clocks of all lemmings can count `dt` more time units.
pub open spec fn clocks_fit(lemmings: Seq<LemmingView>, dt: u64) -> bool {
    forall|i: int| 0 <= i < lemmings.len() ==> clock_fits(#[trigger] lemmings[i], dt)
}

/// The world: the map, the lemmings in the order they were added, and the
/// frames of their animations.
pub struct World {
    pub terrain: TerrainMap,
    pub lemmings: Vec<Lemming>,
    pub animations: FrameTable,
}

impl World {
    /// A world without lemmings.
    pub fn new(terrain: TerrainMap, animations: FrameTable) -> (world: World)
        ensures
            world.terrain == terrain,
            world.animations == animations,
            world.lemmings@ == Seq::<Lemming>::empty(),
    {
        World { terrain, lemmings: Vec::new(), animations }
    }

    /// Whether [`update`](Self::update) can be called with this `dt`: no
    /// clock would run over.
    pub fn can_update(&self, dt: u64) -> (fit: bool)
        ensures
            fit == clocks_fit(views(self.lemmings@), dt),
    {
        let mut i: usize = 0;
        while i < self.lemmings.len()
            invariant
                i <= self.lemmings.len(),
                forall|j: int| 0 <= j < i ==> clock_fits(#[trigger] views(self.lemmings@)[j], dt),
            decreases self.lemmings.len() - i,
        {
            if self.lemmings[i].animation.frame_time > u64::MAX - dt {
                assert(!clock_fits(views(self.lemmings@)[i as int], dt));
                return false;
            }
            i = i + 1;
        }
        true
    }

    /// One tick of the simulation: every lemming updates once, in order, on
    /// the shared map. What one lemming does to the map, the lemmings after
    /// it find done.
    pub fn update(&mut self, dt: u64)
        requires
            clocks_fit(views(old(self).lemmings@), dt),
        ensures
            views(final(self).lemmings@) == step(
                views(old(self).lemmings@),
                old(self).terrain@,
                old(self).animations@,
                dt,
            ).0,
            final(self).terrain@ == step(
                views(old(self).lemmings@),
                old(self).terrain@,
                old(self).animations@,
                dt,
            ).1,
            final(self).animations == old(self).animations,
    {
        let ghost frames = self.animations@;
        let ghost goal = step(views(self.lemmings@), self.terrain@, frames, dt);
        let mut i: usize = 0;
        while i < self.lemmings.len()
            invariant
                i <= self.lemmings.len(),
                self.animations == old(self).animations,
                frames == self.animations@,
                forall|j: int|
                    i <= j < self.lemmings.len() ==> clock_fits(
                        #[trigger] views(self.lemmings@)[j],
                        dt,
                    ),
                step_from(views(self.lemmings@), self.terrain@, frames, dt, i as int) == goal,
            decreases self.lemmings.len() - i,
        {
            let ghost before = views(self.lemmings@);
            assert(clock_fits(before[i as int], dt));
            self.lemmings[i].update(dt, &mut self.terrain, &self.animations);
            assert(views(self.lemmings@) =~= before.update(
                i as int,
                views(self.lemmings@)[i as int],
            ));
            i = i + 1;
        }
    }
}

} // verus!
