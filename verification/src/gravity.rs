//! Gravity on the terrain itself: in one pass over the map, every solid cell
//! that rests on a free cell sinks by one row, and takes the solid cells
//! stacked on it along.

use crate::cell::TerrainCell;
use crate::terrain::{Grid, TerrainMap};
use vstd::prelude::*;

verus! {

/// What a sunk cell leaves behind: all four channels zero.
pub open spec fn spec_blank_pixel() -> TerrainCell {
    TerrainCell { red: 0, green: 0, blue: 0, alpha: 0 }
}

#[verifier::when_used_as_spec(spec_blank_pixel)]
pub fn blank_pixel() -> (cell: TerrainCell)
    ensures
        cell == spec_blank_pixel(),
{
    TerrainCell { red: 0, green: 0, blue: 0, alpha: 0 }
}

impl Grid {
    /// Whether one pass of gravity moves the cell above `(x, y)` down into
    /// `(x, y)`: that cell is solid, and `(x, y)` is free, either as it is or
    /// because its own cell moves down in the same pass.
    pub open spec fn sinks_into(self, x: int, y: int) -> bool
        decreases self.height - y,
    {
        &&& 0 <= x < self.width
        &&& 0 < y < self.height
        &&& self.cells[(x, y - 1)].solid()
        &&& (!self.cells[(x, y)].solid() || self.sinks_into(x, y + 1))
    }

    /// Whether `gap` is the first free cell of column `x` from row `from`
    /// down: it is not solid, and every cell from `from` down to it is.
    pub open spec fn first_gap(self, x: int, from: int, gap: int) -> bool {
        &&& from <= gap < self.height
        &&& !self.cells[(x, gap)].solid()
        &&& forall|between: int|
            from <= between < gap ==> (#[trigger] self.cells[(x, between)]).solid()
    }

    /// The cell at `(x, y)` after one pass of gravity: the cell from above
    /// where that one sinks, a blank where the cell that was here has sunk
    /// and none has followed, and the old cell otherwise.
    pub open spec fn settled_cell(self, x: int, y: int) -> TerrainCell {
        if self.sinks_into(x, y) {
            self.cells[(x, y - 1)]
        } else if self.sinks_into(x, y + 1) {
            blank_pixel()
        } else {
            self.cells[(x, y)]
        }
    }

    /// The grid after one pass of gravity.
    pub open spec fn settled(self) -> Grid {
        Grid {
            cells: Map::new(
                |p: (int, int)| self.cells.contains_key(p),
                |p: (int, int)| self.settled_cell(p.0, p.1),
            ),
            ..self
        }
    }

    /// The grid in the middle of a pass: the columns left of `column` are
    /// done, and so are the rows of `column` from `row` down; the cell above
    /// them is already blank if it has sunk.
    pub open spec fn settling(self, column: int, row: int) -> Grid {
        Grid {
            cells: Map::new(
                |p: (int, int)| self.cells.contains_key(p),
                |p: (int, int)|
                    if p.0 < column || (p.0 == column && p.1 >= row) {
                        self.settled_cell(p.0, p.1)
                    } else if p.0 == column && p.1 == row - 1 && self.sinks_into(p.0, row) {
                        blank_pixel()
                    } else {
                        self.cells[p]
                    },
            ),
            ..self
        }
    }
}

impl TerrainMap {
    /// One pass of gravity over the terrain, column by column and in each
    /// column from the bottom row up: where a cell is not solid and the cell
    /// above it is, the upper cell moves down and leaves a blank.
    pub fn step_environment_gravity(&mut self)
        ensures
            final(self)@ == old(self)@.settled(),
    {
        let width = self.width();
        let height = self.height();
        let mut x: u32 = 0;
        assert(self@ =~= old(self)@.settling(0, height as int));
        while x < width
            invariant
                x <= width,
                width == old(self)@.width,
                height == old(self)@.height,
                self@ == old(self)@.settling(x as int, height as int),
            decreases width - x,
        {
            let mut y: u32 = height;
            while y > 0
                invariant
                    x < width,
                    y <= height,
                    width == old(self)@.width,
                    height == old(self)@.height,
                    self@ == old(self)@.settling(x as int, y as int),
                decreases y,
            {
                y = y - 1;
                let pixel = self.probe(x, y);
                if !pixel.is_solid() && y > 0 {
                    let above_pixel = self.probe(x, y - 1);
                    if above_pixel.is_solid() {
                        let _ = self.put_pixel_safe(x, y, above_pixel);
                        let _ = self.put_pixel_safe(x, y - 1, blank_pixel());
                    }
                }
                assert(self@ =~= old(self)@.settling(x as int, y as int));
            }
            x = x + 1;
            assert(self@ =~= old(self)@.settling(x as int, height as int));
        }
        assert(self@ =~= old(self)@.settled());
    }
}

} // verus!
