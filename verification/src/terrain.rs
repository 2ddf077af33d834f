//! The terrain map: a fixed-size grid of collision cells held in an image
//! buffer, with bounds-checked reads and writes.
//!
//! Contracts speak of a [`Grid`], the mathematical content of a map: its
//! extent and the cell at each coordinate inside it.

use crate::cell::{empty_pixel, TerrainCell};
use image::{ImageBuffer, Rgba};
use vstd::prelude::*;

verus! {

/// The outcome of addressing a cell outside the map.
#[derive(Clone, Copy, Debug, PartialEq, Eq, Structural)]
pub struct OutOfRange;

/// What a terrain map holds: `width` columns, `height` rows, and one cell for
/// each coordinate `(x, y)` with `0 <= x < width` and `0 <= y < height`.
#[verifier::ext_equal]
pub struct Grid {
    pub width: nat,
    pub height: nat,
    pub cells: Map<(int, int), TerrainCell>,
}

impl Grid {
    /// Whether `(x, y)` lies on the map.
    pub open spec fn in_range(self, x: int, y: int) -> bool {
        0 <= x < self.width && 0 <= y < self.height
    }

    /// A grid is well formed when it holds a cell exactly for the coordinates
    /// on the map.
    pub open spec fn wf(self) -> bool {
        forall|x: int, y: int| self.cells.contains_key((x, y)) <==> self.in_range(x, y)
    }

    /// The bounds-checked read: the cell at `(x, y)`, or `OutOfRange`.
    pub open spec fn query(self, x: int, y: int) -> Result<TerrainCell, OutOfRange> {
        if self.in_range(x, y) {
            Ok(self.cells[(x, y)])
        } else {
            Err(OutOfRange)
        }
    }

    /// The cell that collision logic sees at `(x, y)`: beyond the edge of the
    /// map there is only open air.
    pub open spec fn probe(self, x: int, y: int) -> TerrainCell {
        if self.in_range(x, y) {
            self.cells[(x, y)]
        } else {
            empty_pixel()
        }
    }

    /// The grid with the cell at `(x, y)` replaced; unchanged when `(x, y)`
    /// is off the map.
    pub open spec fn put(self, x: int, y: int, cell: TerrainCell) -> Grid {
        if self.in_range(x, y) {
            Grid { cells: self.cells.insert((x, y), cell), ..self }
        } else {
            self
        }
    }

    /// A grid of the given extent with the same cell everywhere.
    pub open spec fn filled(width: nat, height: nat, fill: TerrainCell) -> Grid {
        Grid {
            width,
            height,
            cells: Map::new(
                |p: (int, int)| 0 <= p.0 < width && 0 <= p.1 < height,
                |p: (int, int)| fill,
            ),
        }
    }

    /// The grid that a row-major buffer of four bytes per cell describes.
    pub open spec fn from_bytes(width: nat, height: nat, bytes: Seq<u8>) -> Grid {
        Grid {
            width,
            height,
            cells: Map::new(
                |p: (int, int)| 0 <= p.0 < width && 0 <= p.1 < height,
                |p: (int, int)| nth_cell(bytes, cell_index(width, p.0, p.1)),
            ),
        }
    }
}

/// The place of the cell at `(x, y)` in a row-major buffer: rows follow each
/// other, each `width` cells long.
pub open spec fn cell_index(width: nat, x: int, y: int) -> int {
    y * width + x
}

/// The `n`-th cell of a buffer of four bytes per cell.
pub open spec fn nth_cell(bytes: Seq<u8>, n: int) -> TerrainCell {
    TerrainCell {
        red: bytes[4 * n],
        green: bytes[4 * n + 1],
        blue: bytes[4 * n + 2],
        alpha: bytes[4 * n + 3],
    }
}

/// The collision map. It wraps an RGBA image buffer of the `image` crate,
/// which Verus cannot look into: what the buffer holds is named by
/// [`canvas_size`] and [`canvas_cells`], and only the `canvas_*` functions
/// of this module touch it. Their contracts say what the methods of
/// `ImageBuffer` do and are taken on trust; everything else is proved from
/// them.
#[verifier::external_body]
pub struct TerrainMap {
    canvas: ImageBuffer<Rgba<u8>, Vec<u8>>,
}

/// The width and height of the image buffer, as `ImageBuffer::dimensions`
/// reports them.
pub uninterp spec fn canvas_size(terrain: TerrainMap) -> (u32, u32);

/// The pixel that the image buffer holds at each coordinate inside its
/// dimensions, channel by channel.
pub uninterp spec fn canvas_cells(terrain: TerrainMap) -> Map<(int, int), TerrainCell>;

impl View for TerrainMap {
    type V = Grid;

    open spec fn view(&self) -> Grid {
        Grid {
            width: canvas_size(*self).0 as nat,
            height: canvas_size(*self).1 as nat,
            cells: Map::new(
                |p: (int, int)|
                    0 <= p.0 < canvas_size(*self).0 && 0 <= p.1 < canvas_size(*self).1,
                |p: (int, int)| canvas_cells(*self)[p],
            ),
        }
    }
}

/// `ImageBuffer::from_raw`: accepts the buffer when the byte count of the
/// image fits in `usize` and in `bytes`; the pixel at `(x, y)` is then made
/// of the four bytes that start at `(y * width + x) * 4`.
#[verifier::external_body]
fn canvas_from_raw(width: u32, height: u32, bytes: Vec<u8>) -> (terrain: Option<TerrainMap>)
    ensures
        terrain is Some <==> (4 * width <= usize::MAX && 4 * width * height <= bytes@.len()),
        terrain is Some ==> canvas_size(terrain->0) == (width, height),
        forall|x: int, y: int|
            terrain is Some && 0 <= x < width && 0 <= y < height ==> #[trigger] canvas_cells(
                terrain->0,
            )[(x, y)] == nth_cell(bytes@, cell_index(width as nat, x, y)),
{
    match ImageBuffer::from_raw(width, height, bytes) {
        Some(canvas) => Some(TerrainMap { canvas }),
        None => None,
    }
}

/// `ImageBuffer::as_raw`: the bytes behind the image, row-major, four per
/// pixel, at least as many as the dimensions need.
#[verifier::external_body]
fn canvas_as_raw(terrain: &TerrainMap) -> (bytes: &Vec<u8>)
    ensures
        4 * canvas_size(*terrain).0 * canvas_size(*terrain).1 <= bytes@.len(),
        forall|x: int, y: int|
            0 <= x < canvas_size(*terrain).0 && 0 <= y < canvas_size(*terrain).1
                ==> #[trigger] canvas_cells(*terrain)[(x, y)] == nth_cell(
                bytes@,
                cell_index(canvas_size(*terrain).0 as nat, x, y),
            ),
{
    terrain.canvas.as_raw()
}

/// `ImageBuffer::width`.
#[verifier::external_body]
fn canvas_width(terrain: &TerrainMap) -> (width: u32)
    ensures
        width == canvas_size(*terrain).0,
{
    terrain.canvas.width()
}

/// `ImageBuffer::height`.
#[verifier::external_body]
fn canvas_height(terrain: &TerrainMap) -> (height: u32)
    ensures
        height == canvas_size(*terrain).1,
{
    terrain.canvas.height()
}

/// `ImageBuffer::get_pixel`, which panics outside the dimensions: the pixel
/// at `(x, y)`, channel by channel.
#[verifier::external_body]
fn canvas_get_pixel(terrain: &TerrainMap, x: u32, y: u32) -> (cell: TerrainCell)
    requires
        x < canvas_size(*terrain).0,
        y < canvas_size(*terrain).1,
    ensures
        cell == canvas_cells(*terrain)[(x as int, y as int)],
{
    let pixel = terrain.canvas.get_pixel(x, y);
    TerrainCell { red: pixel.0[0], green: pixel.0[1], blue: pixel.0[2], alpha: pixel.0[3] }
}

/// `ImageBuffer::put_pixel`, which panics outside the dimensions: the pixel
/// at `(x, y)` becomes `cell`, every other pixel and the dimensions stay.
#[verifier::external_body]
fn canvas_put_pixel(terrain: &mut TerrainMap, x: u32, y: u32, cell: TerrainCell)
    requires
        x < canvas_size(*old(terrain)).0,
        y < canvas_size(*old(terrain)).1,
    ensures
        canvas_size(*final(terrain)) == canvas_size(*old(terrain)),
        canvas_cells(*final(terrain)) == canvas_cells(*old(terrain)).insert(
            (x as int, y as int),
            cell,
        ),
{
    terrain.canvas.put_pixel(x, y, Rgba([cell.red, cell.green, cell.blue, cell.alpha]));
}

/// Inside a map of `width` by `height` cells, every cell has its own place
/// among the first `width * height` of a row-major buffer.
pub proof fn lemma_cell_index_bounds(width: nat, height: nat, x: int, y: int)
    requires
        0 <= x < width,
        0 <= y < height,
    ensures
        0 <= cell_index(width, x, y) < width * height,
{
    assert(y * width + x < width * height) by (nonlinear_arith)
        requires
            0 <= x < width,
            0 <= y < height,
    ;
    assert(0 <= y * width) by (nonlinear_arith)
        requires
            0 <= y,
            0 <= width,
    ;
}

impl TerrainMap {
    /// A map of the given extent with `fill` in every cell, or `None` when
    /// its buffer would be larger than an allocation can be.
    pub fn filled(width: u32, height: u32, fill: TerrainCell) -> (terrain: Option<TerrainMap>)
        ensures
            terrain is Some <==> 4 * width <= usize::MAX && 4 * width * height <= isize::MAX,
            terrain matches Some(t) ==> t@ == Grid::filled(width as nat, height as nat, fill),
    {
        assert(width * height <= 0xFFFF_FFFF * 0xFFFF_FFFF && 4 * width * height == 4 * (width
            * height)) by (nonlinear_arith)
            requires
                width <= 0xFFFF_FFFF,
                height <= 0xFFFF_FFFF,
        ;
        let cells: u64 = (width as u64) * (height as u64);
        if cells > (isize::MAX as u64) / 4 || (width as u64) > (usize::MAX as u64) / 4 {
            return None;
        }
        let count: usize = cells as usize;
        let mut bytes: Vec<u8> = Vec::new();
        let mut n: usize = 0;
        while n < count
            invariant
                n <= count,
                4 * count <= isize::MAX,
                bytes@.len() == 4 * n,
                forall|i: int| 0 <= i < n ==> #[trigger] nth_cell(bytes@, i) == fill,
            decreases count - n,
        {
            let ghost so_far = bytes@;
            bytes.push(fill.red);
            bytes.push(fill.green);
            bytes.push(fill.blue);
            bytes.push(fill.alpha);
            assert forall|i: int| 0 <= i < n + 1 implies #[trigger] nth_cell(bytes@, i)
                == fill by {
                if i < n {
                    assert(nth_cell(bytes@, i) == nth_cell(so_far, i));
                }
            }
            n = n + 1;
        }
        let ghost filling = bytes@;
        let terrain = canvas_from_raw(width, height, bytes);
        proof {
            let t = terrain.unwrap();
            assert forall|x: int, y: int| 0 <= x < width && 0 <= y < height implies canvas_cells(
                t,
            )[(x, y)] == fill by {
                lemma_cell_index_bounds(width as nat, height as nat, x, y);
                assert(nth_cell(filling, cell_index(width as nat, x, y)) == fill);
            }
            assert(t@ =~= Grid::filled(width as nat, height as nat, fill));
        }
        terrain
    }

    /// Takes a row-major RGBA buffer as the map. `None` when the buffer is
    /// shorter than `width * height` cells.
    pub fn from_raw(width: u32, height: u32, bytes: Vec<u8>) -> (terrain: Option<TerrainMap>)
        ensures
            terrain is Some <==> 4 * width <= usize::MAX && 4 * width * height <= bytes@.len(),
            terrain matches Some(t) ==> t@ == Grid::from_bytes(
                width as nat,
                height as nat,
                bytes@,
            ),
    {
        let terrain = canvas_from_raw(width, height, bytes);
        proof {
            if terrain is Some {
                assert(terrain.unwrap()@ =~= Grid::from_bytes(
                    width as nat,
                    height as nat,
                    bytes@,
                ));
            }
        }
        terrain
    }

    /// The bytes of the map as a renderer blits them: row-major, four per
    /// cell.
    pub fn as_raw(&self) -> (bytes: &Vec<u8>)
        ensures
            4 * self@.width * self@.height <= bytes@.len(),
            self@ == Grid::from_bytes(self@.width, self@.height, bytes@),
    {
        let bytes = canvas_as_raw(self);
        assert(self@ =~= Grid::from_bytes(self@.width, self@.height, bytes@));
        bytes
    }

    /// The number of columns.
    pub fn width(&self) -> (width: u32)
        ensures
            width == self@.width,
    {
        canvas_width(self)
    }

    /// The number of rows.
    pub fn height(&self) -> (height: u32)
        ensures
            height == self@.height,
    {
        canvas_height(self)
    }

    /// Bounds-checked read: the cell at `(x, y)`, or `OutOfRange` for a
    /// coordinate off the map. Never faults.
    pub fn get_pixel_safe(&self, x: u32, y: u32) -> (cell: Result<TerrainCell, OutOfRange>)
        ensures
            cell == self@.query(x as int, y as int),
    {
        if x < canvas_width(self) && y < canvas_height(self) {
            Ok(canvas_get_pixel(self, x, y))
        } else {
            Err(OutOfRange)
        }
    }

    /// Bounds-checked write: replaces the cell at `(x, y)`, or reports
    /// `OutOfRange` and leaves the map as it is. Never faults.
    pub fn put_pixel_safe(&mut self, x: u32, y: u32, cell: TerrainCell) -> (done: Result<
        (),
        OutOfRange,
    >)
        ensures
            done is Ok <==> old(self)@.in_range(x as int, y as int),
            final(self)@ == old(self)@.put(x as int, y as int, cell),
    {
        if x < canvas_width(self) && y < canvas_height(self) {
            canvas_put_pixel(self, x, y, cell);
            assert(self@ =~= old(self)@.put(x as int, y as int, cell));
            Ok(())
        } else {
            Err(OutOfRange)
        }
    }

    /// The cell that collision logic sees at `(x, y)`: the cell of the map,
    /// or open air beyond its edge.
    pub fn probe(&self, x: u32, y: u32) -> (cell: TerrainCell)
        ensures
            cell == self@.probe(x as int, y as int),
    {
        match self.get_pixel_safe(x, y) {
            Ok(cell) => cell,
            Err(_) => empty_pixel(),
        }
    }
}

/// The content of every terrain map is a well-formed grid.
pub proof fn lemma_terrain_view_wf(terrain: TerrainMap)
    ensures
        terrain@.wf(),
{
}

} // verus!
