//! What holds of the simulation whatever the map, the lemmings and the
//! frames are: the laws that the contracts of the other modules add up to.

use crate::actions::Action;
use crate::animation::{leaves, settle, AnimationView, FrameView, Settled};
use crate::cell::{empty_pixel, solid_breakable_pixel, TerrainCell};
use crate::lemming::{
    first_clear, shifted, solid_above, walk_frame_0, walk_frame_1, within, LemmingView,
    MAX_CLIMB, REACH,
};
use crate::terrain::{Grid, OutOfRange};
use crate::world::{step, step_from};
use vstd::prelude::*;

verus! {

// ---------------------------------------------------------------- terrain

/// Beyond the edge of the map a read reports `OutOfRange`, collision logic
/// sees open air, which is neither solid nor breakable, and a write changes
/// nothing.
pub proof fn lemma_off_map_is_open_air(grid: Grid, x: int, y: int, cell: TerrainCell)
    requires
        !grid.in_range(x, y),
    ensures
        grid.query(x, y) == Err::<TerrainCell, OutOfRange>(OutOfRange),
        grid.probe(x, y) == empty_pixel(),
        !grid.probe(x, y).solid(),
        !grid.probe(x, y).breakable(),
        grid.put(x, y, cell) == grid,
{
}

/// On the map a read gives the cell, and a write changes that cell and no
/// other.
pub proof fn lemma_write_then_read(grid: Grid, x: int, y: int, cell: TerrainCell, i: int, j: int)
    requires
        grid.in_range(x, y),
    ensures
        grid.query(x, y) == Ok::<TerrainCell, OutOfRange>(grid.cells[(x, y)]),
        grid.put(x, y, cell).query(x, y) == Ok::<TerrainCell, OutOfRange>(cell),
        (i, j) != (x, y) ==> grid.put(x, y, cell).query(i, j) == grid.query(i, j),
        grid.put(x, y, cell).width == grid.width,
        grid.put(x, y, cell).height == grid.height,
{
}

/// A cell sinks in a pass of gravity exactly if it is solid and somewhere
/// below it in its column there is a free cell, with nothing but solid cells
/// in between: `(x, y)` takes the cell from above if that one is solid and
/// the first free cell from `(x, y)` down lies on the map.
pub proof fn lemma_sinks_onto_gap(grid: Grid, x: int, y: int)
    ensures
        grid.sinks_into(x, y) <==> {
            &&& 0 <= x < grid.width
            &&& 0 < y < grid.height
            &&& grid.cells[(x, y - 1)].solid()
            &&& exists|gap: int| #[trigger] grid.first_gap(x, y, gap)
        },
    decreases grid.height - y,
{
    if 0 <= x < grid.width && 0 < y < grid.height && grid.cells[(x, y - 1)].solid() {
        lemma_sinks_onto_gap(grid, x, y + 1);
        if !grid.cells[(x, y)].solid() {
            assert(grid.first_gap(x, y, y));
        } else if grid.sinks_into(x, y + 1) {
            let gap = choose|gap: int| #[trigger] grid.first_gap(x, y + 1, gap);
            assert(grid.first_gap(x, y, gap));
        } else {
            assert forall|gap: int| !(#[trigger] grid.first_gap(x, y, gap)) by {
                if grid.first_gap(x, y, gap) {
                    assert(grid.first_gap(x, y + 1, gap));
                }
            }
        }
    }
}

/// A pass of gravity never resizes the map.
pub proof fn lemma_gravity_keeps_extent(grid: Grid)
    requires
        grid.wf(),
    ensures
        grid.settled().width == grid.width,
        grid.settled().height == grid.height,
        grid.settled().wf(),
{
    assert forall|x: int, y: int|
        grid.settled().cells.contains_key((x, y)) <==> grid.settled().in_range(x, y) by {
        assert(grid.cells.contains_key((x, y)) <==> grid.in_range(x, y));
    }
}

// ---------------------------------------------------------------- falling

impl LemmingView {
    /// The lemming `rows` rows further down.
    pub open spec fn lowered(self, rows: int) -> LemmingView {
        LemmingView { y: (self.y + rows) as u32, ..self }
    }

    /// The lemming after `ticks` ticks in which it does nothing but fall.
    pub open spec fn fallen(self, grid: Grid, ticks: nat) -> LemmingView
        decreases ticks,
    {
        if ticks == 0 {
            self
        } else {
            self.fallen(grid, (ticks - 1) as nat).after_fall(grid)
        }
    }
}

/// A lemming without ground under it falls exactly one row; one that stands
/// on ground does not move. (In the last row of the ring of coordinates,
/// `u32::MAX`, there is no row below to fall to: the law leaves it out.)
pub proof fn lemma_fall_one_row(lemming: LemmingView, grid: Grid)
    ensures
        lemming.on_ground(grid) ==> lemming.after_fall(grid) == lemming,
        !lemming.on_ground(grid) && lemming.y < u32::MAX ==> lemming.after_fall(grid)
            == lemming.lowered(1),
{
}

/// As long as there is no ground under it, a falling lemming goes down one
/// row each tick.
pub proof fn lemma_free_fall(lemming: LemmingView, grid: Grid, ticks: nat)
    requires
        lemming.y + ticks <= u32::MAX,
        forall|rows: int|
            0 <= rows < ticks ==> !(#[trigger] lemming.lowered(rows)).on_ground(grid),
    ensures
        lemming.fallen(grid, ticks) == lemming.lowered(ticks as int),
    decreases ticks,
{
    if ticks > 0 {
        lemma_free_fall(lemming, grid, (ticks - 1) as nat);
        assert(!lemming.lowered(ticks - 1).on_ground(grid));
    }
}

/// Once it stands on ground, a lemming that only falls stays where it is.
pub proof fn lemma_grounded_stays(lemming: LemmingView, grid: Grid, ticks: nat)
    requires
        lemming.on_ground(grid),
    ensures
        lemming.fallen(grid, ticks) == lemming,
    decreases ticks,
{
    if ticks > 0 {
        lemma_grounded_stays(lemming, grid, (ticks - 1) as nat);
    }
}

/// A tick of a lemming without capabilities is a fall and the run of the
/// clock; the map stays as it is.
pub proof fn lemma_tick_of_faller(
    lemming: LemmingView,
    grid: Grid,
    frames: Map<Seq<char>, FrameView>,
    dt: u64,
)
    requires
        !lemming.actions.has(Action::Walk),
        !lemming.actions.has(Action::Dig),
        !lemming.actions.has(Action::Bridge),
    ensures
        lemming.tick(grid, frames, dt).1 == grid,
        lemming.tick(grid, frames, dt).0 == (LemmingView {
            animation: lemming.animation.advance(dt, frames),
            ..lemming.after_fall(grid)
        }),
{
}

// ---------------------------------------------------------------- walking

/// The scan for a free row finds the first one. From `from` rows up, its
/// result is zero or lies between `from` and [`MAX_CLIMB`]; where it is above
/// zero, the cell that many rows up is not solid and all cells of the scan
/// below it are; where it is zero and the scan did not start on a free cell
/// in the row itself, all cells of the scan are solid.
pub proof fn lemma_first_clear_is_least(grid: Grid, column: u32, row: u32, from: int)
    requires
        0 <= from,
    ensures
        ({
            let found = first_clear(grid, column, row, from);
            &&& found == 0 || from <= found <= MAX_CLIMB
            &&& found > 0 ==> !solid_above(grid, column, row, found)
            &&& found > 0 ==> forall|k: int|
                from <= k < found ==> #[trigger] solid_above(grid, column, row, k)
            &&& found == 0 && (from > 0 || solid_above(grid, column, row, 0)) ==> forall|k: int|
                from <= k <= MAX_CLIMB ==> #[trigger] solid_above(grid, column, row, k)
        }),
    decreases MAX_CLIMB + 1 - from,
{
    if from <= MAX_CLIMB && solid_above(grid, column, row, from) {
        lemma_first_clear_is_least(grid, column, row, from + 1);
    }
}

/// A walk moves the lemming one column, and up by five rows at most; a
/// lemming for which no walk is due, or that has no ground under it, stays.
pub proof fn lemma_walk_is_one_step(lemming: LemmingView, grid: Grid)
    ensures
        ({
            let after = lemming.after_walk(grid);
            &&& 0 <= lemming.rise(grid) <= MAX_CLIMB
            &&& !(lemming.walk_ready() && lemming.on_ground(grid)) ==> after == lemming
            &&& lemming.walk_ready() && lemming.on_ground(grid) ==> {
                &&& after.y == shifted(lemming.y, -lemming.rise(grid))
                &&& after.x == shifted(lemming.x, after.direction.speed() as int)
                &&& after.direction != lemming.direction <==> solid_above(
                    grid,
                    lemming.ahead(),
                    after.y,
                    0,
                )
            }
        }),
{
    lemma_first_clear_is_least(grid, lemming.ahead(), lemming.y, 0);
}

// ---------------------------------------------------------------- digging

/// Digging is local. Where a dig changes a cell, the cell was breakable, is
/// empty now, and lies in the row below the lemming, among the six columns
/// that start three to its left; a cell that was not breakable is as it was.
/// The extent of the map stays. A lemming on ground ends one row further
/// down, in the same column; without ground nothing happens at all.
pub proof fn lemma_dig_is_local(lemming: LemmingView, grid: Grid)
    requires
        grid.wf(),
    ensures
        ({
            let (after, dug) = lemming.after_dig(grid);
            &&& dug.width == grid.width
            &&& dug.height == grid.height
            &&& dug.wf()
            &&& forall|x: int, y: int|
                grid.in_range(x, y) && #[trigger] dug.cells[(x, y)] != grid.cells[(x, y)] ==> {
                    &&& grid.cells[(x, y)].breakable()
                    &&& dug.cells[(x, y)] == empty_pixel()
                    &&& y == lemming.y + 1
                    &&& within(x, shifted(lemming.x, -3), REACH as int)
                }
            &&& forall|x: int, y: int|
                grid.in_range(x, y) && !grid.cells[(x, y)].breakable() ==> #[trigger] dug.cells[(
                    x,
                    y,
                )] == grid.cells[(x, y)]
            &&& lemming.on_ground(grid) ==> after == lemming.lowered(1)
            &&& !lemming.on_ground(grid) ==> after == lemming && dug == grid
        }),
{
    let (after, dug) = lemming.after_dig(grid);
    assert forall|x: int, y: int| dug.cells.contains_key((x, y)) <==> dug.in_range(x, y) by {
        assert(grid.cells.contains_key((x, y)) <==> grid.in_range(x, y));
    }
}

// ---------------------------------------------------------------- bridging

/// Bridging only fills gaps. Where laying a bridge changes a cell, the cell
/// was empty, is solid and breakable now, and lies in the row of the lemming,
/// among the six columns that start one to its right; a cell that was not
/// empty is as it was. The extent of the map stays.
pub proof fn lemma_bridge_fills_gaps(lemming: LemmingView, grid: Grid)
    requires
        grid.wf(),
    ensures
        ({
            let (after, laid) = lemming.after_bridge(grid);
            &&& laid.width == grid.width
            &&& laid.height == grid.height
            &&& laid.wf()
            &&& forall|x: int, y: int|
                grid.in_range(x, y) && #[trigger] laid.cells[(x, y)] != grid.cells[(x, y)] ==> {
                    &&& grid.cells[(x, y)] == empty_pixel()
                    &&& laid.cells[(x, y)] == solid_breakable_pixel()
                    &&& y == lemming.y
                    &&& within(x, shifted(lemming.x, 1), REACH as int)
                }
            &&& forall|x: int, y: int|
                grid.in_range(x, y) && !grid.cells[(x, y)].empty() ==> #[trigger] laid.cells[(
                    x,
                    y,
                )] == grid.cells[(x, y)]
            &&& !lemming.on_ground(grid) ==> after == lemming && laid == grid
        }),
{
    let (after, laid) = lemming.after_bridge(grid);
    assert forall|x: int, y: int| laid.cells.contains_key((x, y)) <==> laid.in_range(x, y) by {
        assert(grid.cells.contains_key((x, y)) <==> grid.in_range(x, y));
    }
}

/// A tick never resizes the map.
pub proof fn lemma_tick_keeps_extent(
    lemming: LemmingView,
    grid: Grid,
    frames: Map<Seq<char>, FrameView>,
    dt: u64,
)
    requires
        grid.wf(),
    ensures
        lemming.tick(grid, frames, dt).1.width == grid.width,
        lemming.tick(grid, frames, dt).1.height == grid.height,
        lemming.tick(grid, frames, dt).1.wf(),
{
    let walked = if lemming.actions.has(Action::Walk) {
        lemming.after_walk(grid)
    } else {
        lemming
    };
    let fallen = walked.after_fall(grid);
    lemma_dig_is_local(fallen, grid);
    let dug = if lemming.actions.has(Action::Dig) {
        fallen.after_dig(grid)
    } else {
        (fallen, grid)
    };
    lemma_bridge_fills_gaps(dug.0, dug.1);
}

// ---------------------------------------------------------------- the clock

/// A clock at rest does not leave its frame: where the frame is known, less
/// than its delay has been spent in it.
pub proof fn lemma_settle_rests(
    frames: Map<Seq<char>, FrameView>,
    frame_id: Seq<char>,
    elapsed: nat,
)
    ensures
        ({
            let rest = settle(frames, frame_id, elapsed);
            !leaves(frames, rest.frame_id, rest.elapsed)
        }),
    decreases elapsed,
{
    if leaves(frames, frame_id, elapsed) {
        lemma_settle_rests(
            frames,
            frames[frame_id].next_frame_id,
            (elapsed - frames[frame_id].delay) as nat,
        );
    }
}

/// Time adds up: letting `first` pass, and then `more` from where the clock
/// came to rest, leads to the same frame, with the same time spent in it and
/// as many transitions in all, as letting `first + more` pass at once.
pub proof fn lemma_settle_adds_up(
    frames: Map<Seq<char>, FrameView>,
    frame_id: Seq<char>,
    first: nat,
    more: nat,
)
    ensures
        ({
            let rest = settle(frames, frame_id, first);
            let then = settle(frames, rest.frame_id, rest.elapsed + more);
            settle(frames, frame_id, first + more) == Settled {
                transitions: rest.transitions + then.transitions,
                ..then
            }
        }),
    decreases first,
{
    if leaves(frames, frame_id, first) {
        lemma_settle_adds_up(
            frames,
            frames[frame_id].next_frame_id,
            (first - frames[frame_id].delay) as nat,
            more,
        );
    }
}

/// The cadence of a cycle of two frames `a` and `b` that last `delay` each: a
/// clock that starts in `a` makes one transition for every full `delay` of
/// time, rests in `a` after an even number of them and in `b` after an odd
/// number, and keeps the remainder.
pub proof fn lemma_two_frame_cadence(
    frames: Map<Seq<char>, FrameView>,
    a: Seq<char>,
    b: Seq<char>,
    delay: u64,
    elapsed: nat,
)
    requires
        delay > 0,
        frames.contains_key(a),
        frames.contains_key(b),
        frames[a].delay == delay,
        frames[b].delay == delay,
        frames[a].next_frame_id == b,
        frames[b].next_frame_id == a,
    ensures
        settle(frames, a, elapsed) == (Settled {
            frame_id: if (elapsed / delay as nat) % 2 == 0 {
                a
            } else {
                b
            },
            elapsed: elapsed % delay as nat,
            transitions: elapsed / delay as nat,
        }),
    decreases elapsed,
{
    let d = delay as nat;
    if elapsed >= d {
        let less = (elapsed - d) as nat;
        lemma_two_frame_cadence(frames, b, a, delay, less);
        assert(elapsed / d == less / d + 1 && elapsed % d == less % d) by (nonlinear_arith)
            requires
                elapsed == less + d,
                d > 0,
        ;
    } else {
        assert(elapsed / d == 0 && elapsed % d == elapsed) by (nonlinear_arith)
            requires
                elapsed < d,
                d > 0,
        ;
    }
}

/// Whatever a lemming does in a tick, its clock runs for `dt` and its
/// capabilities stay.
pub proof fn lemma_tick_runs_clock(
    lemming: LemmingView,
    grid: Grid,
    frames: Map<Seq<char>, FrameView>,
    dt: u64,
)
    ensures
        lemming.tick(grid, frames, dt).0.animation == lemming.animation.advance(dt, frames),
        lemming.tick(grid, frames, dt).0.actions == lemming.actions,
{
}

/// Walking keeps the cadence of the walking cycle. Where the two frames of
/// the cycle follow each other and last `delay` each, a clock in the cycle
/// stays in it, and after a tick a walk is due exactly if the tick
/// brought a transition: if the time spent in the frame, with `dt` added,
/// has reached `delay`. As long as that time stays below two delays, a tick
/// brings at most one.
pub proof fn lemma_walk_follows_transitions(
    clock: AnimationView,
    frames: Map<Seq<char>, FrameView>,
    delay: u64,
    dt: u64,
)
    requires
        delay > 0,
        clock.current_frame_id == walk_frame_0() || clock.current_frame_id == walk_frame_1(),
        frames.contains_key(walk_frame_0()),
        frames.contains_key(walk_frame_1()),
        frames[walk_frame_0()].delay == delay,
        frames[walk_frame_1()].delay == delay,
        frames[walk_frame_0()].next_frame_id == walk_frame_1(),
        frames[walk_frame_1()].next_frame_id == walk_frame_0(),
    ensures
        ({
            let spent = (clock.frame_time + dt) as nat;
            let after = clock.advance(dt, frames);
            let transitions = settle(frames, clock.current_frame_id, spent).transitions;
            &&& after.current_frame_id == walk_frame_0() || after.current_frame_id
                == walk_frame_1()
            &&& transitions == spent / delay as nat
            &&& after.frame_time == spent % delay as nat
            &&& after.entered_frame(walk_frame_0()) || after.entered_frame(walk_frame_1())
                <==> spent >= delay
            &&& spent < 2 * delay ==> transitions <= 1
        }),
{
    let spent = (clock.frame_time + dt) as nat;
    let d = delay as nat;
    if clock.current_frame_id == walk_frame_0() {
        lemma_two_frame_cadence(frames, walk_frame_0(), walk_frame_1(), delay, spent);
    } else {
        lemma_two_frame_cadence(frames, walk_frame_1(), walk_frame_0(), delay, spent);
    }
    assert((spent / d > 0 <==> spent >= d) && spent % d < d) by (nonlinear_arith)
        requires
            d > 0,
    ;
    if spent < 2 * d {
        assert(spent / d <= 1) by (nonlinear_arith)
            requires
                d > 0,
                spent < 2 * d,
        ;
    }
}

// ---------------------------------------------------------------- order

/// A step goes through the lemmings in order, each on the map as the one
/// before left it: the step of a list with `last` added ticks `last` on the
/// map that the step of the list produced.
pub proof fn lemma_step_in_order(
    lemmings: Seq<LemmingView>,
    last: LemmingView,
    grid: Grid,
    frames: Map<Seq<char>, FrameView>,
    dt: u64,
)
    ensures
        ({
            let before = step(lemmings, grid, frames, dt);
            let ticked = last.tick(before.1, frames, dt);
            step(lemmings.push(last), grid, frames, dt) == (before.0.push(ticked.0), ticked.1)
        }),
{
    lemma_step_from_in_order(lemmings, last, grid, frames, dt, 0);
}

proof fn lemma_step_from_in_order(
    lemmings: Seq<LemmingView>,
    last: LemmingView,
    grid: Grid,
    frames: Map<Seq<char>, FrameView>,
    dt: u64,
    from: int,
)
    requires
        0 <= from <= lemmings.len(),
    ensures
        ({
            let before = step_from(lemmings, grid, frames, dt, from);
            let ticked = last.tick(before.1, frames, dt);
            step_from(lemmings.push(last), grid, frames, dt, from) == (
                before.0.push(ticked.0),
                ticked.1,
            )
        }),
    decreases lemmings.len() - from,
{
    if from < lemmings.len() {
        let ticked = lemmings[from].tick(grid, frames, dt);
        lemma_step_from_in_order(
            lemmings.update(from, ticked.0),
            last,
            ticked.1,
            frames,
            dt,
            from + 1,
        );
        assert(lemmings.push(last).update(from, ticked.0) =~= lemmings.update(from, ticked.0).push(
            last,
        ));
    } else {
        let ticked = last.tick(grid, frames, dt);
        assert(lemmings.push(last).update(from, ticked.0) =~= lemmings.push(ticked.0));
        assert(step_from(lemmings.push(ticked.0), ticked.1, frames, dt, from + 1) == (
            lemmings.push(ticked.0),
            ticked.1,
        ));
    }
}

/// Of two lemmings in one step, the second finds the map as the first left
/// it.
pub proof fn lemma_second_sees_first(
    first: LemmingView,
    second: LemmingView,
    grid: Grid,
    frames: Map<Seq<char>, FrameView>,
    dt: u64,
)
    ensures
        ({
            let one = first.tick(grid, frames, dt);
            let two = second.tick(one.1, frames, dt);
            step(seq![first, second], grid, frames, dt) == (seq![one.0, two.0], two.1)
        }),
{
    let one = first.tick(grid, frames, dt);
    let two = second.tick(one.1, frames, dt);
    lemma_step_in_order(Seq::empty(), first, grid, frames, dt);
    lemma_step_in_order(seq![first], second, grid, frames, dt);
    assert(Seq::<LemmingView>::empty().push(first) =~= seq![first]);
    assert(seq![first].push(second) =~= seq![first, second]);
    assert(Seq::<LemmingView>::empty().push(one.0) =~= seq![one.0]);
    assert(seq![one.0].push(two.0) =~= seq![one.0, two.0]);
}

} // verus!
