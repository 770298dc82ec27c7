//! Putting the pictures of the tiles together into one map.
//!
//! Each picture goes where its tile lies, counted from the least coordinates
//! of the window. Then the rows of the whole are inverted, because `y` grows
//! downwards where the tiles are kept and upwards where the map is shown.

use vstd::prelude::*;
use crate::color::Rgb;
use crate::error::RenderError;
use crate::geometry::TILE_SIZE;
use crate::raster::{rows_inverted, Raster};
use crate::signal::CompletionSignal;
use crate::window::{canvas_fits, TileWindow};

verus! {

/// True where the picture of every tile of the window is at hand.
pub open spec fn pass_complete(window: TileWindow, images: Map<(i32, i32), Seq<Seq<Rgb>>>) -> bool {
    forall|x: i32, y: i32| window.covers(x as int, y as int) ==> #[trigger] images.contains_key((x, y))
}

/// The map before its rows are inverted: the pixel at column `px` of row `py`
/// comes from the picture of the tile that lies `px / TILE_SIZE` beyond the
/// least `x` of the window and `py / TILE_SIZE` beyond its least `y`.
pub open spec fn assembled(window: TileWindow, images: Map<(i32, i32), Seq<Seq<Rgb>>>) -> Seq<Seq<Rgb>> {
    Seq::new(
        (window.spec_rows() * TILE_SIZE) as nat,
        |py: int|
            Seq::new(
                (window.spec_cols() * TILE_SIZE) as nat,
                |px: int|
                    images[(
                        (window.spec_origin_x() + px / (TILE_SIZE as int)) as i32,
                        (window.spec_origin_y() + py / (TILE_SIZE as int)) as i32,
                    )][py % (TILE_SIZE as int)][px % (TILE_SIZE as int)],
            ),
    )
}

/// The picture of the tile at the least coordinates of the window begins at
/// the first pixel of the first row of the map, before the rows are inverted.
pub proof fn lemma_anchor_at_origin(window: TileWindow, images: Map<(i32, i32), Seq<Seq<Rgb>>>)
    requires
        window.inv(),
    ensures
        forall|px: int, py: int|
            0 <= px < TILE_SIZE && 0 <= py < TILE_SIZE ==> #[trigger] assembled(window, images)[py][px]
                == images[(window.spec_origin_x(), window.spec_origin_y())][py][px],
{
}

/// True of the place in column `i` and row `j` of a window where it comes
/// before the place in column `a` and row `b`, going column by column.
pub open spec fn comes_before(i: int, j: int, a: int, b: int) -> bool {
    i < a || (i == a && j < b)
}

/// Puts the pictures of the tiles together, each where its tile lies.
///
/// It fails where a picture is missing: the error then names the first tile
/// without one, going column by column.
pub fn assemble(window: &TileWindow, signal: &CompletionSignal) -> (out: Result<Raster, RenderError>)
    ensures
        out is Ok <==> pass_complete(*window, signal@),
        out matches Ok(canvas) ==> {
            &&& canvas.width() == window.spec_cols() * TILE_SIZE
            &&& canvas.height() == window.spec_rows() * TILE_SIZE
            &&& canvas@ == assembled(*window, signal@)
        },
        out matches Err(e) ==> {
            &&& e matches RenderError::MissingTile { x, y }
            &&& window.covers(x as int, y as int)
            &&& !signal@.contains_key((x, y))
            &&& forall|a: i32, b: i32|
                window.covers(a as int, b as int) && comes_before(
                    a - window.spec_origin_x(),
                    b - window.spec_origin_y(),
                    x - window.spec_origin_x(),
                    y - window.spec_origin_y(),
                ) ==> #[trigger] signal@.contains_key((a, b))
        },
{
    proof {
        use_type_invariant(window);
    }
    let cols = window.cols();
    let rows = window.rows();
    let side: usize = TILE_SIZE as usize;
    let width: u32 = (cols * side) as u32;
    let height: u32 = (rows * side) as u32;
    assert(3 * width * height == 3 * (cols * TILE_SIZE) * (rows * TILE_SIZE));
    let made = Raster::new(width, height);
    let mut canvas = made.unwrap();
    let ghost x0 = window.spec_origin_x() as int;
    let ghost y0 = window.spec_origin_y() as int;
    let ghost images = signal@;
    let mut i: usize = 0;
    while i < cols
        invariant
            0 <= i <= cols,
            window.inv(),
            cols == window.spec_cols(),
            rows == window.spec_rows(),
            side == TILE_SIZE,
            x0 == window.spec_origin_x(),
            y0 == window.spec_origin_y(),
            images == signal@,
            canvas_fits(cols as int, rows as int),
            canvas.width() == cols * TILE_SIZE,
            canvas.height() == rows * TILE_SIZE,
            forall|a: i32, b: i32|
                window.covers(a as int, b as int) && a - x0 < i ==> #[trigger] images.contains_key((a, b)),
            forall|px: int, py: int|
                0 <= px < i * TILE_SIZE && 0 <= py < rows * TILE_SIZE ==> #[trigger] canvas@[py][px] == assembled(
                    *window,
                    images,
                )[py][px],
        decreases cols - i,
    {
        let mut j: usize = 0;
        while j < rows
            invariant
                0 <= j <= rows,
                0 <= i < cols,
                window.inv(),
                cols == window.spec_cols(),
                rows == window.spec_rows(),
                side == TILE_SIZE,
                x0 == window.spec_origin_x(),
                y0 == window.spec_origin_y(),
                images == signal@,
                canvas_fits(cols as int, rows as int),
                canvas.width() == cols * TILE_SIZE,
                canvas.height() == rows * TILE_SIZE,
                forall|a: i32, b: i32|
                    window.covers(a as int, b as int) && comes_before(a - x0, b - y0, i as int, j as int)
                        ==> #[trigger] images.contains_key((a, b)),
                forall|px: int, py: int|
                    0 <= px < (i + 1) * TILE_SIZE && 0 <= py < rows * TILE_SIZE && comes_before(
                        px / (TILE_SIZE as int),
                        py / (TILE_SIZE as int),
                        i as int,
                        j as int,
                    ) ==> #[trigger] canvas@[py][px] == assembled(*window, images)[py][px],
            decreases rows - j,
        {
            let tile = window.tile(i, j);
            let found = signal.get(tile.x, tile.y);
            let img = match found {
                Some(img) => img,
                None => {
                    return Err(RenderError::MissingTile { x: tile.x, y: tile.y });
                },
            };
            let left: u32 = (i * side) as u32;
            let top: u32 = (j * side) as u32;
            let ghost before = canvas@;
            let fits = canvas.blit(&img, left, top);
            proof {
                assert(fits);
                assert forall|px: int, py: int|
                    0 <= px < (i + 1) * TILE_SIZE && 0 <= py < rows * TILE_SIZE && comes_before(
                        px / (TILE_SIZE as int),
                        py / (TILE_SIZE as int),
                        i as int,
                        j + 1,
                    ) implies #[trigger] canvas@[py][px] == assembled(*window, images)[py][px] by {
                    let a = px / (TILE_SIZE as int);
                    let b = py / (TILE_SIZE as int);
                    if a == i && b == j {
                        assert(left <= px < left + TILE_SIZE && top <= py < top + TILE_SIZE);
                        assert(canvas@[py][px] == img@[py - top][px - left]);
                        assert(px - left == px % (TILE_SIZE as int));
                        assert(py - top == py % (TILE_SIZE as int));
                    } else {
                        assert(!(left <= px < left + TILE_SIZE && top <= py < top + TILE_SIZE));
                        assert(canvas@[py][px] == before[py][px]);
                    }
                }
                assert forall|a: i32, b: i32|
                    window.covers(a as int, b as int) && comes_before(
                        a - x0,
                        b - y0,
                        i as int,
                        j + 1,
                    ) implies #[trigger] images.contains_key((a, b)) by {
                    if a - x0 == i && b - y0 == j {
                        assert((a, b) == (tile.x, tile.y));
                    }
                }
            }
            j = j + 1;
        }
        proof {
            assert forall|px: int, py: int|
                0 <= px < (i + 1) * TILE_SIZE && 0 <= py < rows * TILE_SIZE implies #[trigger] canvas@[py][px]
                == assembled(*window, images)[py][px] by {
                assert(comes_before(px / (TILE_SIZE as int), py / (TILE_SIZE as int), i as int, rows as int));
            }
            assert forall|a: i32, b: i32| window.covers(a as int, b as int) && a - x0 < i + 1 implies #[trigger] images.contains_key(
                (a, b),
            ) by {
                assert(comes_before(a - x0, b - y0, i as int, rows as int));
            }
        }
        i = i + 1;
    }
    proof {
        let want = assembled(*window, images);
        assert forall|py: int| 0 <= py < rows * TILE_SIZE implies #[trigger] canvas@[py] =~= want[py] by {
            assert forall|px: int| 0 <= px < cols * TILE_SIZE implies canvas@[py][px] == want[py][px] by {}
        }
        assert(canvas@ =~= want);
        assert forall|x: i32, y: i32| window.covers(x as int, y as int) implies #[trigger] images.contains_key(
            (x, y),
        ) by {}
    }
    Ok(canvas)
}

/// Makes the map of the window from the pictures of its tiles: puts them
/// together, then inverts the order of the rows.
///
/// It fails where `assemble` fails, with the same error.
pub fn compose(window: &TileWindow, signal: &CompletionSignal) -> (out: Result<Raster, RenderError>)
    ensures
        out is Ok <==> pass_complete(*window, signal@),
        out matches Ok(canvas) ==> {
            &&& canvas.width() == window.spec_cols() * TILE_SIZE
            &&& canvas.height() == window.spec_rows() * TILE_SIZE
            &&& canvas@ == rows_inverted(assembled(*window, signal@))
        },
        out matches Err(e) ==> {
            &&& e matches RenderError::MissingTile { x, y }
            &&& window.covers(x as int, y as int)
            &&& !signal@.contains_key((x, y))
            &&& forall|a: i32, b: i32|
                window.covers(a as int, b as int) && comes_before(
                    a - window.spec_origin_x(),
                    b - window.spec_origin_y(),
                    x - window.spec_origin_x(),
                    y - window.spec_origin_y(),
                ) ==> #[trigger] signal@.contains_key((a, b))
        },
{
    match assemble(window, signal) {
        Ok(canvas) => Ok(canvas.rows_inverted()),
        Err(e) => Err(e),
    }
}

} // verus!
