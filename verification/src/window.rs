//! The window of the world that one map shows: a rectangle of tiles without
//! gaps, and the way to gather it from a store of tiles.

use vstd::prelude::*;
use crate::geometry::TILE_SIZE;
use crate::raster::MAX_SIDE;
use crate::types::map::{grid_views, Tile, TileView};

verus! {

/// True where a map of so many tiles across and down fits into a raster.
pub open spec fn canvas_fits(cols: int, rows: int) -> bool {
    &&& cols * TILE_SIZE <= MAX_SIDE
    &&& rows * TILE_SIZE <= MAX_SIDE
    &&& 3 * (cols * TILE_SIZE) * (rows * TILE_SIZE) <= usize::MAX
}

/// True of a grid of tiles that fills a rectangle of the world from the given
/// origin: it has at least one column and one row, its columns are of one
/// length, and the tile in column `i` and row `j` lies at the origin plus
/// `(i, j)`. It is no larger than what a map can show.
pub open spec fn is_window(grid: Seq<Seq<TileView>>, origin_x: i32, origin_y: i32) -> bool {
    &&& grid.len() >= 1
    &&& grid[0].len() >= 1
    &&& canvas_fits(grid.len() as int, grid[0].len() as int)
    &&& origin_x + grid.len() - 1 <= i32::MAX
    &&& origin_y + grid[0].len() - 1 <= i32::MAX
    &&& forall|i: int| 0 <= i < grid.len() ==> (#[trigger] grid[i]).len() == grid[0].len()
    &&& forall|i: int, j: int|
        0 <= i < grid.len() && 0 <= j < grid[0].len() ==> {
            &&& (#[trigger] grid[i][j]).x == origin_x + i
            &&& grid[i][j].y == origin_y + j
        }
}

/// Whether a map of so many tiles across and down fits into a raster.
pub fn fits_canvas(cols: usize, rows: usize) -> (fits: bool)
    ensures
        fits == canvas_fits(cols as int, rows as int),
{
    let side: usize = TILE_SIZE as usize;
    let limit: usize = (MAX_SIDE as usize) / side;
    assert(limit * TILE_SIZE <= MAX_SIDE < (limit + 1) * TILE_SIZE);
    if cols > limit || rows > limit {
        return false;
    }
    let width: usize = cols * side;
    let height: usize = rows * side;
    assert(3 * (cols * TILE_SIZE) * (rows * TILE_SIZE) == (width * 3) * height) by (nonlinear_arith)
        requires
            width == cols * TILE_SIZE,
            height == rows * TILE_SIZE,
    ;
    if height == 0 {
        assert((width * 3) * height == 0) by (nonlinear_arith)
            requires
                height == 0,
        ;
        return true;
    }
    assert((width * 3) * height >= width * 3) by (nonlinear_arith)
        requires
            height >= 1,
            width >= 0,
    ;
    match width.checked_mul(3) {
        Some(row) => row.checked_mul(height).is_some(),
        None => false,
    }
}

/// A window has no more tiles than the machine can count.
pub proof fn lemma_tile_count(cols: int, rows: int)
    requires
        0 <= cols,
        0 <= rows,
        canvas_fits(cols, rows),
    ensures
        cols * rows <= usize::MAX,
{
    assert(3 * (cols * TILE_SIZE) * (rows * TILE_SIZE) == 67500 * (cols * rows)) by (nonlinear_arith);
    assert(cols * rows >= 0) by (nonlinear_arith)
        requires
            0 <= cols,
            0 <= rows,
    ;
}

/// A rectangle of the world, every place of it filled with a tile. `self@[i][j]`
/// is the tile `i` columns to the right of the origin and `j` rows beyond it.
pub struct TileWindow {
    origin_x: i32,
    origin_y: i32,
    cells: Vec<Vec<Tile>>,
}

impl View for TileWindow {
    type V = Seq<Seq<TileView>>;

    closed spec fn view(&self) -> Seq<Seq<TileView>> {
        grid_views(self.cells@)
    }
}

impl TileWindow {
    /// What every window keeps to: it has no gaps.
    #[verifier::type_invariant]
    pub open spec fn inv(&self) -> bool {
        is_window(self@, self.spec_origin_x(), self.spec_origin_y())
    }

    /// The lowest `x` in the window.
    pub closed spec fn spec_origin_x(&self) -> i32 {
        self.origin_x
    }

    /// The lowest `y` in the window.
    pub closed spec fn spec_origin_y(&self) -> i32 {
        self.origin_y
    }

    /// The number of columns, which is the width of the window in tiles.
    pub open spec fn spec_cols(&self) -> nat {
        self@.len()
    }

    /// The number of rows, which is the height of the window in tiles.
    pub open spec fn spec_rows(&self) -> nat {
        self@[0].len()
    }

    /// True of the coordinates that the window covers.
    pub open spec fn covers(&self, x: int, y: int) -> bool {
        &&& self.spec_origin_x() <= x < self.spec_origin_x() + self@.len()
        &&& self.spec_origin_y() <= y < self.spec_origin_y() + self@[0].len()
    }

    /// The coordinates of the tiles of the window.
    pub open spec fn coordinates(&self) -> Set<(i32, i32)> {
        Set::new(|at: (i32, i32)| self.covers(at.0 as int, at.1 as int))
    }

    /// The tile of the window at the given coordinates.
    pub open spec fn tile_at(&self, x: int, y: int) -> TileView {
        self@[x - self.spec_origin_x()][y - self.spec_origin_y()]
    }

    /// The coordinates that the window is centred on: half its width and half
    /// its height beyond the origin.
    pub open spec fn spec_center(&self) -> (i32, i32) {
        (
            (self.spec_origin_x() + self@.len() / 2) as i32,
            (self.spec_origin_y() + self@[0].len() / 2) as i32,
        )
    }

    /// A window has no gaps: at every place that it covers it has a tile, and
    /// that tile lies at that place.
    pub proof fn lemma_no_gaps(&self, x: int, y: int)
        requires
            self.inv(),
            self.covers(x, y),
        ensures
            0 <= x - self.spec_origin_x() < self.spec_cols(),
            0 <= y - self.spec_origin_y() < self@[x - self.spec_origin_x()].len(),
            self.tile_at(x, y).x == x,
            self.tile_at(x, y).y == y,
    {
        let i = x - self.spec_origin_x();
        let j = y - self.spec_origin_y();
        assert(self@[i].len() == self@[0].len());
        assert(self@[i][j].x == self.spec_origin_x() + i);
    }

    /// The window made of a grid of columns, or `None` where the grid is not
    /// a rectangle of the world without gaps, counted from its first tile.
    pub fn from_grid(grid: Vec<Vec<Tile>>) -> (out: Option<TileWindow>)
        ensures
            out is Some <==> grid@.len() >= 1 && grid@[0]@.len() >= 1 && is_window(
                grid_views(grid@),
                grid@[0]@[0].x,
                grid@[0]@[0].y,
            ),
            out matches Some(w) ==> {
                &&& w@ == grid_views(grid@)
                &&& w.spec_origin_x() == grid@[0]@[0].x
                &&& w.spec_origin_y() == grid@[0]@[0].y
            },
    {
        if grid.len() == 0 || grid[0].len() == 0 {
            return None;
        }
        let ghost views = grid_views(grid@);
        let cols = grid.len();
        let rows = grid[0].len();
        let origin_x = grid[0][0].x;
        let origin_y = grid[0][0].y;
        if cols - 1 > (i32::MAX as i64 - origin_x as i64) as usize || rows - 1 > (i32::MAX as i64 - origin_y as i64) as usize {
            return None;
        }
        if !fits_canvas(cols, rows) {
            return None;
        }
        let mut i: usize = 0;
        while i < cols
            invariant
                0 <= i <= cols,
                cols == grid@.len(),
                rows == grid@[0]@.len(),
                cols >= 1,
                rows >= 1,
                views == grid_views(grid@),
                origin_x == grid@[0]@[0].x,
                origin_y == grid@[0]@[0].y,
                canvas_fits(cols as int, rows as int),
                origin_x + cols - 1 <= i32::MAX,
                origin_y + rows - 1 <= i32::MAX,
                forall|a: int| 0 <= a < i ==> (#[trigger] views[a]).len() == rows,
                forall|a: int, b: int|
                    0 <= a < i && 0 <= b < rows ==> {
                        &&& (#[trigger] views[a][b]).x == origin_x + a
                        &&& views[a][b].y == origin_y + b
                    },
            decreases cols - i,
        {
            if grid[i].len() != rows {
                assert(views[i as int].len() != views[0].len());
                return None;
            }
            let mut j: usize = 0;
            while j < rows
                invariant
                    0 <= j <= rows,
                    0 <= i < cols,
                    cols == grid@.len(),
                    rows == grid@[0]@.len(),
                    grid@[i as int]@.len() == rows,
                    views == grid_views(grid@),
                    origin_x == grid@[0]@[0].x,
                    origin_y == grid@[0]@[0].y,
                    origin_x + cols - 1 <= i32::MAX,
                    origin_y + rows - 1 <= i32::MAX,
                    forall|b: int|
                        0 <= b < j ==> {
                            &&& (#[trigger] views[i as int][b]).x == origin_x + i
                            &&& views[i as int][b].y == origin_y + b
                        },
                decreases rows - j,
            {
                let t = &grid[i][j];
                if t.x as i64 != origin_x as i64 + i as i64 || t.y as i64 != origin_y as i64 + j as i64 {
                    assert(views[0].len() == rows);
                    assert(views[i as int][j as int] == grid@[i as int]@[j as int]@);
                    return None;
                }
                assert(views[i as int][j as int] == grid@[i as int]@[j as int]@);
                j = j + 1;
            }
            i = i + 1;
        }
        assert(views[0][0] == grid@[0]@[0]@);
        Some(TileWindow { origin_x, origin_y, cells: grid })
    }

    /// The lowest `x` in the window.
    #[verifier::when_used_as_spec(spec_origin_x)]
    pub fn origin_x(&self) -> (x: i32)
        ensures
            x == self.spec_origin_x(),
    {
        self.origin_x
    }

    /// The lowest `y` in the window.
    #[verifier::when_used_as_spec(spec_origin_y)]
    pub fn origin_y(&self) -> (y: i32)
        ensures
            y == self.spec_origin_y(),
    {
        self.origin_y
    }

    /// The number of columns, which is the width of the window in tiles.
    pub fn cols(&self) -> (n: usize)
        ensures
            n == self.spec_cols(),
            n >= 1,
    {
        proof {
            use_type_invariant(self);
        }
        self.cells.len()
    }

    /// The number of rows, which is the height of the window in tiles.
    pub fn rows(&self) -> (n: usize)
        ensures
            n == self.spec_rows(),
            n >= 1,
    {
        proof {
            use_type_invariant(self);
        }
        self.cells[0].len()
    }

    /// The tile in column `i` and row `j`.
    pub fn tile(&self, i: usize, j: usize) -> (t: &Tile)
        requires
            i < self.spec_cols(),
            j < self.spec_rows(),
        ensures
            t@ == self@[i as int][j as int],
            t.x == self.origin_x() + i,
            t.y == self.origin_y() + j,
    {
        proof {
            use_type_invariant(self);
            assert(self@[i as int].len() == self@[0].len());
            assert(self@[i as int][j as int] == self.cells@[i as int]@[j as int]@);
        }
        &self.cells[i][j]
    }

    /// The coordinates that the window is centred on.
    #[verifier::when_used_as_spec(spec_center)]
    pub fn center(&self) -> (at: (i32, i32))
        ensures
            at == self.spec_center(),
            self.covers(at.0 as int, at.1 as int),
    {
        proof {
            use_type_invariant(self);
        }
        let half_cols: usize = self.cells.len() / 2;
        let half_rows: usize = self.cells[0].len() / 2;
        ((self.origin_x as i64 + half_cols as i64) as i32, (self.origin_y as i64 + half_rows as i64) as i32)
    }

    /// Gives up the window for its grid of columns.
    pub fn into_grid(self) -> (grid: Vec<Vec<Tile>>)
        ensures
            grid_views(grid@) == self@,
    {
        self.cells
    }
}

} // verus!
