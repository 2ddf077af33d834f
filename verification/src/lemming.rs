//! The lemming and what it does in one tick: walk, fall, dig, bridge, and
//! let its animation clock run, in that order.
//!
//! Coordinates are `u32` and live on a ring: one step left of column 0 is
//! column `u32::MAX`, and one step below row `u32::MAX` is row 0. No map
//! reaches column or row `u32::MAX`, so a lemming that steps over the left or
//! upper edge is off the map, as one that steps over the right or lower edge
//! is.

use crate::actions::{Action, Actions, WALK};
use crate::animation::{Animation, AnimationView, FrameTable, FrameView};
use crate::cell::{empty_pixel, solid_breakable_pixel};
use crate::terrain::{Grid, TerrainMap};
use vstd::prelude::*;

verus! {

/// The way a lemming faces.
#[derive(Clone, Copy, Debug, PartialEq, Eq, Structural)]
pub enum FacingDirection {
    Left,
    Right,
}

impl FacingDirection {
    /// The horizontal step of one walk: -1 to the left, +1 to the right.
    pub open spec fn speed(self) -> i32 {
        match self {
            FacingDirection::Left => -1i32,
            FacingDirection::Right => 1i32,
        }
    }

    /// The other direction.
    pub open spec fn reversed(self) -> FacingDirection {
        match self {
            FacingDirection::Left => FacingDirection::Right,
            FacingDirection::Right => FacingDirection::Left,
        }
    }
}

/// The coordinate `steps` away from `from` on the ring of `u32`.
pub open spec fn shifted(from: u32, steps: int) -> u32 {
    if from + steps > u32::MAX {
        (from + steps - 0x1_0000_0000) as u32
    } else if from + steps < 0 {
        (from + steps + 0x1_0000_0000) as u32
    } else {
        (from + steps) as u32
    }
}

/// The id of the first frame of the walking cycle.
pub open spec fn walk_frame_0() -> Seq<char> {
    "lemming_walk_0"@
}

/// The id of the second frame of the walking cycle.
pub open spec fn walk_frame_1() -> Seq<char> {
    "lemming_walk_1"@
}

/// How many rows a lemming may step up in one walk.
pub const MAX_CLIMB: u32 = 5;

/// How many cells one dig clears and one bridge lays.
pub const REACH: u32 = 6;

/// A lemming: where it is, which way it faces, what it can do, and the clock
/// of its animation.
#[derive(Clone, Debug, PartialEq, Eq)]
pub struct Lemming {
    pub x: u32,
    pub y: u32,
    pub direction: FacingDirection,
    pub actions: Actions,
    pub animation: Animation,
}

/// A [`Lemming`] as contracts see it.
pub struct LemmingView {
    pub x: u32,
    pub y: u32,
    pub direction: FacingDirection,
    pub actions: Actions,
    pub animation: AnimationView,
}

impl View for Lemming {
    type V = LemmingView;

    open spec fn view(&self) -> LemmingView {
        LemmingView {
            x: self.x,
            y: self.y,
            direction: self.direction,
            actions: self.actions,
            animation: self.animation@,
        }
    }
}

impl LemmingView {
    /// Both coordinates are inside the map.
    pub open spec fn on_map(self, grid: Grid) -> bool {
        self.x < grid.width && self.y < grid.height
    }

    /// The lemming is on the map and the cell one row below it is solid.
    /// Below the last row there is nothing to stand on.
    pub open spec fn on_ground(self, grid: Grid) -> bool {
        self.on_map(grid) && grid.probe(self.x as int, self.y + 1).solid()
    }

    /// Whether a walk is due: the clock has just entered a frame of the
    /// walking cycle.
    pub open spec fn walk_ready(self) -> bool {
        self.animation.entered_frame(walk_frame_0()) || self.animation.entered_frame(
            walk_frame_1(),
        )
    }

    /// The column one step ahead.
    pub open spec fn ahead(self) -> u32 {
        shifted(self.x, self.direction.speed() as int)
    }

    /// How far a walking lemming steps up: the least `k` from 1 to
    /// [`MAX_CLIMB`] for which the cell ahead, `k` rows up, is not solid.
    /// Zero when the cell ahead is free as it is, or when no such `k` exists.
    pub open spec fn rise(self, grid: Grid) -> int {
        first_clear(grid, self.ahead(), self.y, 0)
    }

    /// Walking. It takes a walk that is due and ground under the feet. The
    /// lemming steps up by [`rise`](Self::rise); if the cell ahead is solid
    /// even there, it turns round; and in any case it then moves one column
    /// the way it faces, which after a turn is away from the wall.
    pub open spec fn after_walk(self, grid: Grid) -> LemmingView {
        if self.walk_ready() && self.on_ground(grid) {
            let y = shifted(self.y, -self.rise(grid));
            let direction = if grid.probe(self.ahead() as int, y as int).solid() {
                self.direction.reversed()
            } else {
                self.direction
            };
            LemmingView { x: shifted(self.x, direction.speed() as int), y, direction, ..self }
        } else {
            self
        }
    }

    /// Digging. It takes ground under the feet. In the row below the lemming,
    /// every breakable cell among the [`REACH`] columns that start three to
    /// its left becomes empty; then the lemming moves down one row.
    pub open spec fn after_dig(self, grid: Grid) -> (LemmingView, Grid) {
        if self.on_ground(grid) {
            (
                LemmingView { y: (self.y + 1) as u32, ..self },
                cleared(grid, shifted(self.x, -3), self.y + 1, REACH as int),
            )
        } else {
            (self, grid)
        }
    }

    /// Whether a bridging lemming steps onto its bridge: the cell two columns
    /// ahead in its own row is on the map and solid, and the cell above that
    /// one is on the map and not solid. The cell in between is not looked at.
    pub open spec fn can_climb(self, grid: Grid) -> bool {
        let x = shifted(self.x, 2);
        let up = shifted(self.y, -1);
        &&& grid.in_range(x as int, self.y as int)
        &&& grid.cells[(x as int, self.y as int)].solid()
        &&& grid.in_range(x as int, up as int)
        &&& !grid.cells[(x as int, up as int)].solid()
    }

    /// Bridging. It takes ground under the feet. In the row of the lemming,
    /// every empty cell among the [`REACH`] columns that start one to its
    /// right becomes solid and breakable; then, if it
    /// [can climb](Self::can_climb) the map as it is now, the lemming moves
    /// two columns right and one row up.
    pub open spec fn after_bridge(self, grid: Grid) -> (LemmingView, Grid) {
        if self.on_ground(grid) {
            let laid = paved(grid, shifted(self.x, 1), self.y as int, REACH as int);
            if self.can_climb(laid) {
                (LemmingView { x: shifted(self.x, 2), y: shifted(self.y, -1), ..self }, laid)
            } else {
                (self, laid)
            }
        } else {
            (self, grid)
        }
    }

    /// One tick: walk if the lemming can, fall, dig if it can, bridge if it
    /// can, each on the map as the step before left it; then the clock runs
    /// for `dt`.
    pub open spec fn tick(self, grid: Grid, frames: Map<Seq<char>, FrameView>, dt: u64) -> (
        LemmingView,
        Grid,
    ) {
        let walked = if self.actions.has(Action::Walk) {
            self.after_walk(grid)
        } else {
            self
        };
        let fallen = walked.after_fall(grid);
        let dug = if self.actions.has(Action::Dig) {
            fallen.after_dig(grid)
        } else {
            (fallen, grid)
        };
        let bridged = if self.actions.has(Action::Bridge) {
            dug.0.after_bridge(dug.1)
        } else {
            dug
        };
        (
            LemmingView { animation: bridged.0.animation.advance(dt, frames), ..bridged.0 },
            bridged.1,
        )
    }

    /// Falling: one row down unless the lemming stands on ground.
    pub open spec fn after_fall(self, grid: Grid) -> LemmingView {
        if self.on_ground(grid) {
            self
        } else {
            LemmingView { y: shifted(self.y, 1), ..self }
        }
    }
}

/// Whether the cell in column `column`, `k` rows above row `row`, is solid.
pub open spec fn solid_above(grid: Grid, column: u32, row: u32, k: int) -> bool {
    grid.probe(column as int, shifted(row, -k) as int).solid()
}

/// Scans upwards in column `column` from row `row`, starting `k` rows up: the
/// first `k` up to [`MAX_CLIMB`] at which the cell is not solid, or zero when
/// all of them are solid.
pub open spec fn first_clear(grid: Grid, column: u32, row: u32, k: int) -> int
    decreases MAX_CLIMB + 1 - k,
{
    if k < 0 || k > MAX_CLIMB {
        0
    } else if !solid_above(grid, column, row, k) {
        k
    } else {
        first_clear(grid, column, row, k + 1)
    }
}

/// Whether `column` is one of the `count` columns that start at `start`.
pub open spec fn within(column: int, start: u32, count: int) -> bool {
    exists|k: int| 0 <= k < count && column == #[trigger] shifted(start, k)
}

/// The grid after a dig in row `row`: of the `count` columns from `start`,
/// the breakable cells are empty; every other cell is as it was.
pub open spec fn cleared(grid: Grid, start: u32, row: int, count: int) -> Grid {
    Grid {
        cells: Map::new(
            |p: (int, int)| grid.cells.contains_key(p),
            |p: (int, int)|
                if p.1 == row && within(p.0, start, count) && grid.cells[p].breakable() {
                    empty_pixel()
                } else {
                    grid.cells[p]
                },
        ),
        ..grid
    }
}

/// The grid after a bridge is laid in row `row`: of the `count` columns from
/// `start`, the empty cells are solid and breakable; every other cell is as
/// it was.
pub open spec fn paved(grid: Grid, start: u32, row: int, count: int) -> Grid {
    Grid {
        cells: Map::new(
            |p: (int, int)| grid.cells.contains_key(p),
            |p: (int, int)|
                if p.1 == row && within(p.0, start, count) && grid.cells[p].empty() {
                    solid_breakable_pixel()
                } else {
                    grid.cells[p]
                },
        ),
        ..grid
    }
}

/// One more column: `count + 1` columns from `start` are the first `count`
/// and the column `count` steps from `start`.
proof fn lemma_within_step(column: int, start: u32, count: int)
    requires
        0 <= count,
    ensures
        within(column, start, count + 1) <==> within(column, start, count) || column == shifted(
            start,
            count,
        ),
{
    if within(column, start, count + 1) {
        let k = choose|k: int| 0 <= k < count + 1 && column == #[trigger] shifted(start, k);
        if k < count {
            assert(within(column, start, count));
        }
    }
    if within(column, start, count) {
        let k = choose|k: int| 0 <= k < count && column == #[trigger] shifted(start, k);
        assert(0 <= k < count + 1 && column == shifted(start, k));
    }
    if column == shifted(start, count) {
        assert(0 <= count < count + 1 && column == shifted(start, count));
    }
}

/// Clearing one more column is one bounds-checked write, made where the cell
/// is breakable.
proof fn lemma_cleared_step(grid: Grid, start: u32, row: int, count: int)
    requires
        grid.wf(),
        0 <= count,
    ensures
        ({
            let column = shifted(start, count) as int;
            let so_far = cleared(grid, start, row, count);
            cleared(grid, start, row, count + 1) == if so_far.probe(column, row).breakable() {
                so_far.put(column, row, empty_pixel())
            } else {
                so_far
            }
        }),
{
    let column = shifted(start, count) as int;
    let so_far = cleared(grid, start, row, count);
    let next = cleared(grid, start, row, count + 1);
    let made = if so_far.probe(column, row).breakable() {
        so_far.put(column, row, empty_pixel())
    } else {
        so_far
    };
    assert forall|p: (int, int)| next.cells.contains_key(p) implies next.cells[p]
        == made.cells[p] by {
        lemma_within_step(p.0, start, count);
        assert(grid.in_range(p.0, p.1));
    }
    assert(grid.cells.contains_key((column, row)) <==> grid.in_range(column, row));
    assert(next.cells =~= made.cells);
}

/// Paving one more column is one bounds-checked write, made where the cell is
/// empty.
proof fn lemma_paved_step(grid: Grid, start: u32, row: int, count: int)
    requires
        grid.wf(),
        0 <= count,
    ensures
        ({
            let column = shifted(start, count) as int;
            let so_far = paved(grid, start, row, count);
            paved(grid, start, row, count + 1) == if so_far.in_range(column, row)
                && so_far.cells[(column, row)].empty() {
                so_far.put(column, row, solid_breakable_pixel())
            } else {
                so_far
            }
        }),
{
    let column = shifted(start, count) as int;
    let so_far = paved(grid, start, row, count);
    let next = paved(grid, start, row, count + 1);
    let made = if so_far.in_range(column, row) && so_far.cells[(column, row)].empty() {
        so_far.put(column, row, solid_breakable_pixel())
    } else {
        so_far
    };
    assert forall|p: (int, int)| next.cells.contains_key(p) implies next.cells[p]
        == made.cells[p] by {
        lemma_within_step(p.0, start, count);
        assert(grid.in_range(p.0, p.1));
    }
    assert(grid.cells.contains_key((column, row)) <==> grid.in_range(column, row));
    assert(next.cells =~= made.cells);
}

impl Lemming {
    /// A lemming at `(x, y)` that can walk and has just entered the first
    /// frame of the walking cycle.
    pub fn new(x: u32, y: u32, direction: FacingDirection) -> (lemming: Lemming)
        ensures
            lemming@ == (LemmingView {
                x,
                y,
                direction,
                actions: lemming.actions,
                animation: AnimationView {
                    frame_time: 0,
                    current_frame_id: walk_frame_0(),
                    entered_new_frame: true,
                },
            }),
            lemming.actions@ == Set::<Action>::empty().insert(Action::Walk),
            lemming.actions.spec_bits() == WALK,
    {
        Lemming {
            x,
            y,
            direction,
            actions: Actions::only(Action::Walk),
            animation: Animation::new("lemming_walk_0".to_string(), 0),
        }
    }

    /// The horizontal step of one walk: -1 when facing left, +1 when facing
    /// right.
    pub fn x_speed(&self) -> (speed: i32)
        ensures
            speed == self.direction.speed(),
    {
        match self.direction {
            FacingDirection::Left => -1,
            FacingDirection::Right => 1,
        }
    }

    /// Whether both coordinates are inside the map.
    pub fn on_map(&self, environment: &TerrainMap) -> (on: bool)
        ensures
            on == self@.on_map(environment@),
    {
        self.x < environment.width() && self.y < environment.height()
    }

    /// Whether the lemming is on the map and has a solid cell right below it.
    pub fn on_ground(&self, environment: &TerrainMap) -> (on: bool)
        ensures
            on == self@.on_ground(environment@),
    {
        if !self.on_map(environment) {
            return false;
        }
        if environment.probe(self.x, self.y + 1).is_solid() {
            return true;
        }
        return false;
    }

    /// Walks one step if the clock has just entered a frame of the walking
    /// cycle and the lemming stands on ground. See
    /// [`LemmingView::after_walk`].
    pub fn walk(&mut self, environment: &TerrainMap)
        ensures
            final(self)@ == old(self)@.after_walk(environment@),
    {
        if !(self.animation.entered_frame("lemming_walk_0".to_string())
            || self.animation.entered_frame("lemming_walk_1".to_string())) {
            return ;
        }
        if self.on_map(environment) {
            if self.on_ground(environment) {
                let ahead = self.x.wrapping_add_signed(self.x_speed());
                if environment.probe(ahead, self.y).is_solid() {
                    let mut k: u32 = 0;
                    while k <= MAX_CLIMB
                        invariant_except_break
                            k <= MAX_CLIMB + 1,
                            self.y == old(self).y,
                            first_clear(environment@, ahead, old(self).y, k as int) == first_clear(
                                environment@,
                                ahead,
                                old(self).y,
                                0,
                            ),
                        invariant
                            self.x == old(self).x,
                            self.direction == old(self).direction,
                            self.actions == old(self).actions,
                            self.animation == old(self).animation,
                        ensures
                            self.y == shifted(
                                old(self).y,
                                -first_clear(environment@, ahead, old(self).y, 0),
                            ),
                        decreases MAX_CLIMB + 1 - k,
                    {
                        if !environment.probe(ahead, self.y.wrapping_sub(k)).is_solid() {
                            self.y = self.y.wrapping_sub(k);
                            break ;
                        }
                        k = k + 1;
                    }
                }
                if environment.probe(ahead, self.y).is_solid() {
                    self.direction = match self.direction {
                        FacingDirection::Left => FacingDirection::Right,
                        FacingDirection::Right => FacingDirection::Left,
                    };
                }
                self.x = self.x.wrapping_add_signed(self.x_speed());
            }
        }
    }

    /// Falls one row unless the lemming stands on ground. See
    /// [`LemmingView::after_fall`].
    pub fn fall(&mut self, environment: &TerrainMap)
        ensures
            final(self)@ == old(self)@.after_fall(environment@),
    {
        if !self.on_ground(environment) {
            self.y = self.y.wrapping_add(1);
        }
    }

    /// Digs one row down if the lemming stands on ground. See
    /// [`LemmingView::after_dig`].
    pub fn dig(&mut self, environment: &mut TerrainMap)
        ensures
            final(self)@ == old(self)@.after_dig(old(environment)@).0,
            final(environment)@ == old(self)@.after_dig(old(environment)@).1,
    {
        if self.on_map(environment) {
            if !self.on_ground(environment) {
                return ;
            }
            let start = self.x.wrapping_sub(3);
            let row = self.y + 1;
            let mut k: u32 = 0;
            while k < REACH
                invariant
                    k <= REACH,
                    *self == *old(self),
                    environment@ == cleared(old(environment)@, start, row as int, k as int),
                decreases REACH - k,
            {
                let column = start.wrapping_add(k);
                if let Ok(ground_pixel) = environment.get_pixel_safe(column, row) {
                    if ground_pixel.is_breakable() {
                        let _ = environment.put_pixel_safe(column, row, empty_pixel());
                    }
                }
                proof {
                    lemma_cleared_step(old(environment)@, start, row as int, k as int);
                }
                k = k + 1;
            }
            self.y = self.y + 1;
        }
    }

    /// Lays a bridge ahead and steps onto it if the lemming stands on ground.
    /// See [`LemmingView::after_bridge`].
    pub fn bridge(&mut self, environment: &mut TerrainMap)
        ensures
            final(self)@ == old(self)@.after_bridge(old(environment)@).0,
            final(environment)@ == old(self)@.after_bridge(old(environment)@).1,
    {
        if self.on_map(environment) {
            if !self.on_ground(environment) {
                return ;
            }
            let start = self.x.wrapping_add(1);
            let mut k: u32 = 0;
            while k < REACH
                invariant
                    k <= REACH,
                    *self == *old(self),
                    environment@ == paved(old(environment)@, start, self.y as int, k as int),
                decreases REACH - k,
            {
                let column = start.wrapping_add(k);
                if let Ok(bridge_pixel) = environment.get_pixel_safe(column, self.y) {
                    if bridge_pixel.is_empty() {
                        let _ = environment.put_pixel_safe(column, self.y, solid_breakable_pixel());
                    }
                }
                proof {
                    lemma_paved_step(old(environment)@, start, self.y as int, k as int);
                }
                k = k + 1;
            }
            let mut can_climb = true;
            if let Ok(bridge_pixel) = environment.get_pixel_safe(self.x.wrapping_add(2), self.y) {
                if !bridge_pixel.is_solid() {
                    can_climb = false;
                }
            } else {
                can_climb = false;
            }
            if let Ok(air_pixel) = environment.get_pixel_safe(
                self.x.wrapping_add(2),
                self.y.wrapping_sub(1),
            ) {
                if air_pixel.is_solid() {
                    can_climb = false;
                }
            } else {
                can_climb = false;
            }
            if can_climb {
                self.x = self.x.wrapping_add(2);
                self.y = self.y.wrapping_sub(1);
            }
        }
    }

    /// One tick of this lemming on the shared map: walk, fall, dig and bridge
    /// as far as it has the capability, then `dt` time units on the clock.
    pub fn update(&mut self, dt: u64, environment: &mut TerrainMap, animations: &FrameTable)
        requires
            old(self).animation.frame_time + dt <= u64::MAX,
        ensures
            final(self)@ == old(self)@.tick(old(environment)@, animations@, dt).0,
            final(environment)@ == old(self)@.tick(old(environment)@, animations@, dt).1,
    {
        if self.actions.contains(Actions::only(Action::Walk)) {
            self.walk(environment);
        }
        self.fall(environment);
        if self.actions.contains(Actions::only(Action::Dig)) {
            self.dig(environment);
        }
        if self.actions.contains(Actions::only(Action::Bridge)) {
            self.bridge(environment);
        }
        self.animation.update(dt, animations);
    }
}

} // verus!
