//! One rendering pass: a job for every tile of the window, the wait until
//! all of them are done, and the map that comes of them.
//!
//! The jobs do not depend on one another, so a caller may hand them out to
//! threads: each one calls `render_job` and then `CompletionSignal::record`.
//! `render_pass` runs them one after the other.

use vstd::prelude::*;
use crate::color::{is_occupancy_color, Rgb};
use crate::compose::{assembled, compose, pass_complete};
use crate::encode::{encode, png_encoding};
use crate::error::RenderError;
use crate::geometry::TILE_SIZE;
use crate::raster::{grid_of, rows_inverted, Raster};
use crate::render::{job_done, render_job, shows, spec_occupancy_color, textured, tile_rendered, tile_sized};
use crate::types::map::Tile;
use crate::signal::CompletionSignal;
use crate::window::{lemma_tile_count, TileWindow};

verus! {

/// After how many turns of waiting the number of pictures is looked at
/// whatever the count of finished jobs says.
pub const RECHECK_SPINS: usize = 300;

/// What to do after one look at the signal while waiting for the jobs:
/// `None` to go on with the map, or the number of turns waited so far.
///
/// The wait is over when the count of finished jobs has reached the number of
/// jobs and there is a picture for each. After every `RECHECK_SPINS` turns
/// the count is set aside, and the wait is also over when there is a picture
/// for each job.
pub open spec fn spec_barrier_step(completed: usize, gathered: usize, total: usize, spins: usize) -> Option<
    usize,
> {
    if completed >= total && gathered == total {
        None
    } else if spins >= RECHECK_SPINS {
        if gathered == total {
            None
        } else {
            Some(0usize)
        }
    } else {
        Some((spins + 1) as usize)
    }
}

/// What to do after one look at the signal while waiting for the jobs, given
/// the count of finished jobs, the number of pictures gathered, the number of
/// jobs and the number of turns waited so far.
pub fn barrier_step(completed: usize, gathered: usize, total: usize, spins: usize) -> (next: Option<usize>)
    ensures
        next == spec_barrier_step(completed, gathered, total, spins),
        next is None ==> gathered == total,
{
    if completed >= total && gathered == total {
        None
    } else if spins >= RECHECK_SPINS {
        if gathered == total {
            None
        } else {
            Some(0)
        }
    } else {
        Some(spins + 1)
    }
}

/// One job of a rendering pass: a tile, and what all jobs of the pass share
/// and only read: the tag of the viewer's faction and the texture of the
/// ground. `is_center` says whether the map is centred on the tile.
pub struct RenderJob<'a, F> {
    pub tile: &'a Tile,
    pub viewer: &'a String,
    pub is_center: bool,
    pub shade: &'a F,
}

impl<'a, F: Fn(i64, i64) -> Rgb> RenderJob<'a, F> {
    /// True of the job for the tile in column `i` and row `j` of a window.
    pub open spec fn is_for(self, window: TileWindow, i: int, j: int, viewer: &String, shade: &F) -> bool {
        &&& self.tile@ == window@[i][j]
        &&& self.viewer == viewer
        &&& self.shade == shade
        &&& self.is_center == ((self.tile@.x, self.tile@.y) == window.spec_center())
    }

    /// Does the job: draws the picture of its tile.
    pub fn run(&self) -> (img: Raster)
        requires
            forall|ax: i64, ay: i64| #[trigger] self.shade.requires((ax, ay)),
        ensures
            tile_sized(img),
            job_done(self.shade, self.tile@, self.viewer@, self.is_center, img@),
    {
        render_job(self.tile, self.viewer, self.is_center, self.shade)
    }
}

/// The job for the tile in column `i` and row `j` of a window.
pub fn job_at<'a, F: Fn(i64, i64) -> Rgb>(
    window: &'a TileWindow,
    i: usize,
    j: usize,
    viewer: &'a String,
    shade: &'a F,
) -> (job: RenderJob<'a, F>)
    requires
        i < window.spec_cols(),
        j < window.spec_rows(),
    ensures
        job.is_for(*window, i as int, j as int, viewer, shade),
        job.tile.x == window.spec_origin_x() + i,
        job.tile.y == window.spec_origin_y() + j,
{
    let tile = window.tile(i, j);
    let center = window.center();
    RenderJob { tile, viewer, is_center: tile.x == center.0 && tile.y == center.1, shade }
}

/// The jobs of a pass over a window: one for each tile, column by column.
/// They do not depend on one another and may be done in any order.
pub fn jobs<'a, F: Fn(i64, i64) -> Rgb>(window: &'a TileWindow, viewer: &'a String, shade: &'a F) -> (list: Vec<
    RenderJob<'a, F>,
>)
    ensures
        list@.len() == window.spec_cols() * window.spec_rows(),
        forall|i: int, j: int|
            0 <= i < window.spec_cols() && 0 <= j < window.spec_rows() ==> (#[trigger] list@[i
                * window.spec_rows() + j]).is_for(*window, i, j, viewer, shade),
{
    let cols = window.cols();
    let rows = window.rows();
    let mut list: Vec<RenderJob<'a, F>> = Vec::new();
    let mut i: usize = 0;
    while i < cols
        invariant
            0 <= i <= cols,
            cols == window.spec_cols(),
            rows == window.spec_rows(),
            list@.len() == i * rows,
            forall|a: int, b: int|
                0 <= a < i && 0 <= b < rows ==> (#[trigger] list@[a * rows + b]).is_for(*window, a, b, viewer, shade),
        decreases cols - i,
    {
        let ghost done = list@;
        let mut j: usize = 0;
        while j < rows
            invariant
                0 <= j <= rows,
                0 <= i < cols,
                cols == window.spec_cols(),
                rows == window.spec_rows(),
                done.len() == i * rows,
                list@.len() == i * rows + j,
                list@.subrange(0, done.len() as int) == done,
                forall|b: int| 0 <= b < j ==> (#[trigger] list@[i * rows + b]).is_for(*window, i as int, b, viewer, shade),
            decreases rows - j,
        {
            let ghost before = list@;
            list.push(job_at(window, i, j, viewer, shade));
            proof {
                assert(list@.subrange(0, done.len() as int) =~= before.subrange(0, done.len() as int));
                assert forall|b: int| 0 <= b < j + 1 implies (#[trigger] list@[i * rows + b]).is_for(
                    *window,
                    i as int,
                    b,
                    viewer,
                    shade,
                ) by {
                    if b < j {
                        assert(list@[i * rows + b] == before[i * rows + b]);
                    }
                }
            }
            j = j + 1;
        }
        proof {
            assert forall|a: int, b: int| 0 <= a < i + 1 && 0 <= b < rows implies (#[trigger] list@[a * rows
                + b]).is_for(*window, a, b, viewer, shade) by {
                if a < i {
                    assert(0 <= a * rows + b < i * rows) by (nonlinear_arith)
                        requires
                            0 <= a < i,
                            0 <= b < rows,
                    ;
                    assert(list@[a * rows + b] == list@.subrange(0, done.len() as int)[a * rows + b]);
                    assert(done[a * rows + b].is_for(*window, a, b, viewer, shade));
                }
            }
            assert((i + 1) * rows == i * rows + rows) by (nonlinear_arith);
        }
        i = i + 1;
    }
    list
}

/// True of the pictures that a pass over the window may gather: one for each
/// tile of the window and no other, each showing its tile as the viewer's
/// faction sees it, with the frame on the tile that the window is centred on.
pub open spec fn pass_done<F: Fn(i64, i64) -> Rgb>(
    shade: &F,
    window: TileWindow,
    viewer: Seq<char>,
    images: Map<(i32, i32), Seq<Seq<Rgb>>>,
) -> bool {
    &&& images.dom() == window.coordinates()
    &&& forall|x: i32, y: i32|
        window.covers(x as int, y as int) ==> job_done(
            shade,
            window.tile_at(x as int, y as int),
            viewer,
            (x, y) == window.spec_center(),
            #[trigger] images[(x, y)],
        )
}

/// Renders every tile of the window, one after the other, and gathers the
/// pictures. When it is done the signal holds a picture for each tile of the
/// window and for nothing else, and its count is the number of tiles.
pub fn render_pass<F: Fn(i64, i64) -> Rgb>(window: &TileWindow, viewer: &String, shade: &F) -> (signal:
    CompletionSignal)
    requires
        forall|ax: i64, ay: i64| #[trigger] shade.requires((ax, ay)),
    ensures
        pass_done(shade, *window, viewer@, signal@),
        signal.count() == window.spec_cols() * window.spec_rows(),
        signal@.dom().finite(),
        signal@.dom().len() == window.spec_cols() * window.spec_rows(),
        spec_barrier_step(signal.count(), signal@.dom().len() as usize, signal.count(), 0) is None,
{
    proof {
        use_type_invariant(window);
    }
    let cols = window.cols();
    let rows = window.rows();
    let center = window.center();
    let mut signal = CompletionSignal::new();
    let ghost x0 = window.spec_origin_x() as int;
    let ghost y0 = window.spec_origin_y() as int;
    let mut i: usize = 0;
    while i < cols
        invariant
            0 <= i <= cols,
            window.inv(),
            cols == window.spec_cols(),
            rows == window.spec_rows(),
            center == window.spec_center(),
            x0 == window.spec_origin_x(),
            y0 == window.spec_origin_y(),
            forall|ax: i64, ay: i64| #[trigger] shade.requires((ax, ay)),
            signal.count() == i * rows,
            signal@.dom().finite(),
            signal@.dom().len() == i * rows,
            forall|x: i32, y: i32|
                #[trigger] signal@.contains_key((x, y)) <==> window.covers(x as int, y as int) && x - x0 < i,
            forall|x: i32, y: i32|
                window.covers(x as int, y as int) && x - x0 < i ==> job_done(
                    shade,
                    window.tile_at(x as int, y as int),
                    viewer@,
                    (x, y) == center,
                    #[trigger] signal@[(x, y)],
                ),
        decreases cols - i,
    {
        let mut j: usize = 0;
        while j < rows
            invariant
                0 <= j <= rows,
                0 <= i < cols,
                window.inv(),
                cols == window.spec_cols(),
                rows == window.spec_rows(),
                center == window.spec_center(),
                x0 == window.spec_origin_x(),
                y0 == window.spec_origin_y(),
                forall|ax: i64, ay: i64| #[trigger] shade.requires((ax, ay)),
                signal.count() == i * rows + j,
                signal@.dom().finite(),
                signal@.dom().len() == i * rows + j,
                forall|x: i32, y: i32|
                    #[trigger] signal@.contains_key((x, y)) <==> window.covers(x as int, y as int) && (x - x0 < i
                        || (x - x0 == i && y - y0 < j)),
                forall|x: i32, y: i32|
                    window.covers(x as int, y as int) && (x - x0 < i || (x - x0 == i && y - y0 < j)) ==> job_done(
                        shade,
                        window.tile_at(x as int, y as int),
                        viewer@,
                        (x, y) == center,
                        #[trigger] signal@[(x, y)],
                    ),
            decreases rows - j,
        {
            let job = job_at(window, i, j, viewer, shade);
            let tile = job.tile;
            let img = job.run();
            let ghost before = signal@;
            let ghost picture = img@;
            proof {
                assert(i * rows + j < cols * rows) by (nonlinear_arith)
                    requires
                        0 <= i < cols,
                        0 <= j < rows,
                ;
                lemma_tile_count(cols as int, rows as int);
            }
            assert(!signal@.contains_key((tile.x, tile.y)));
            let accepted = signal.record(tile.x, tile.y, img);
            proof {
                assert(accepted);
                assert(signal@.dom() =~= before.dom().insert((tile.x, tile.y)));
                assert(window.tile_at(tile.x as int, tile.y as int) == tile@);
                assert forall|x: i32, y: i32|
                    window.covers(x as int, y as int) && (x - x0 < i || (x - x0 == i && y - y0 < j + 1)) implies job_done(
                    shade,
                    window.tile_at(x as int, y as int),
                    viewer@,
                    (x, y) == center,
                    #[trigger] signal@[(x, y)],
                ) by {
                    if x == tile.x && y == tile.y {
                        assert(signal@[(x, y)] == picture);
                    } else {
                        assert(signal@[(x, y)] == before[(x, y)]);
                    }
                }
            }
            j = j + 1;
        }
        proof {
            assert((i + 1) * rows == i * rows + rows) by (nonlinear_arith);
        }
        i = i + 1;
    }
    proof {
        assert(signal@.dom() =~= window.coordinates());
    }
    signal
}

/// Draws the map of a window as the viewer's faction sees it: renders every
/// tile over the background that `shade` gives, puts the pictures together
/// and inverts the rows.
///
/// The map has the width and the height of the window in tiles, times the
/// size of a tile. Where no tile of the window is occupied and `shade` never
/// gives the colour of an occupied tile, no pixel of the map has such a
/// colour.
pub fn draw_map<F: Fn(i64, i64) -> Rgb>(window: &TileWindow, viewer: &String, shade: &F) -> (canvas: Raster)
    requires
        forall|ax: i64, ay: i64| #[trigger] shade.requires((ax, ay)),
    ensures
        canvas.width() == window.spec_cols() * TILE_SIZE,
        canvas.height() == window.spec_rows() * TILE_SIZE,
        exists|images: Map<(i32, i32), Seq<Seq<Rgb>>>| #[trigger]
            pass_done(shade, *window, viewer@, images) && canvas@ == rows_inverted(assembled(*window, images)),
        all_unoccupied(*window) && never_occupancy(shade) ==> forall|px: int, py: int|
            0 <= px < canvas.width() && 0 <= py < canvas.height() ==> !is_occupancy_color(#[trigger] canvas@[py][px]),
{
    let signal = render_pass(window, viewer, shade);
    proof {
        use_type_invariant(window);
        assert(pass_complete(*window, signal@)) by {
            assert forall|x: i32, y: i32| window.covers(x as int, y as int) implies #[trigger] signal@.contains_key(
                (x, y),
            ) by {
                assert(window.coordinates().contains((x, y)));
            }
        }
        if all_unoccupied(*window) && never_occupancy(shade) {
            lemma_blank_map_plain(shade, *window, viewer@, signal@);
        }
    }
    match compose(window, &signal) {
        Ok(canvas) => canvas,
        Err(_) => unreached(),
    }
}

/// True of a window in which nobody occupies any tile.
pub open spec fn all_unoccupied(window: TileWindow) -> bool {
    forall|i: int, j: int|
        0 <= i < window.spec_cols() && 0 <= j < window.spec_rows() ==> !(#[trigger] window@[i][j]).occupied
}

/// True where the texture never has the colour of an occupied tile.
pub open spec fn never_occupancy<F: Fn(i64, i64) -> Rgb>(shade: &F) -> bool {
    forall|at: (i64, i64), c: Rgb| #[trigger] shade.ensures(at, c) ==> !is_occupancy_color(c)
}

/// In the map of a window in which nobody occupies any tile, over a texture
/// that never has the colour of an occupied tile, no pixel has such a colour.
pub proof fn lemma_blank_map_plain<F: Fn(i64, i64) -> Rgb>(
    shade: &F,
    window: TileWindow,
    viewer: Seq<char>,
    images: Map<(i32, i32), Seq<Seq<Rgb>>>,
)
    requires
        window.inv(),
        pass_done(shade, window, viewer, images),
        all_unoccupied(window),
        never_occupancy(shade),
    ensures
        forall|px: int, py: int|
            0 <= px < window.spec_cols() * TILE_SIZE && 0 <= py < window.spec_rows() * TILE_SIZE
                ==> !is_occupancy_color(#[trigger] rows_inverted(assembled(window, images))[py][px]),
{
    let flat = assembled(window, images);
    let height = window.spec_rows() * TILE_SIZE;
    assert forall|px: int, py: int|
        0 <= px < window.spec_cols() * TILE_SIZE && 0 <= py < height implies !is_occupancy_color(
        #[trigger] rows_inverted(flat)[py][px],
    ) by {
        let qy = height - 1 - py;
        assert(rows_inverted(flat)[py] == flat[qy]);
        let i = px / (TILE_SIZE as int);
        let j = qy / (TILE_SIZE as int);
        let x = (window.spec_origin_x() + i) as i32;
        let y = (window.spec_origin_y() + j) as i32;
        let lx = px % (TILE_SIZE as int);
        let ly = qy % (TILE_SIZE as int);
        assert(window.covers(x as int, y as int));
        let img = images[(x, y)];
        assert(flat[qy][px] == img[ly][lx]);
        let tile = window.tile_at(x as int, y as int);
        assert(tile == window@[i][j]);
        assert(!tile.occupied);
        let is_center = (x, y) == window.spec_center();
        assert(job_done(shade, tile, viewer, is_center, img));
        let background = choose|background: Seq<Seq<Rgb>>|
            {
                &&& textured(shade, tile.x, tile.y, background)
                &&& img == tile_rendered(background, tile.occupied, tile.faction, viewer, is_center)
                &&& #[trigger] shows(
                    img,
                    background,
                    spec_occupancy_color(tile.occupied, tile.faction, viewer),
                    is_center,
                )
            };
        assert(background[ly].len() == TILE_SIZE);
        let c = img[ly][lx];
        assert(!is_occupancy_color(background[ly][lx]));
    }
}

/// Makes the map of a window and writes it as a PNG stream. It fails where
/// the encoder fails, and only then.
pub fn render_window<F: Fn(i64, i64) -> Rgb>(window: &TileWindow, viewer: &String, shade: &F) -> (out: Result<
    Vec<u8>,
    RenderError,
>)
    requires
        forall|ax: i64, ay: i64| #[trigger] shade.requires((ax, ay)),
    ensures
        out matches Err(e) ==> e is Encoding,
        exists|images: Map<(i32, i32), Seq<Seq<Rgb>>>, samples: Seq<u8>|
            {
                &&& #[trigger] pass_done(shade, *window, viewer@, images)
                &&& grid_of(
                    (window.spec_cols() * TILE_SIZE) as nat,
                    (window.spec_rows() * TILE_SIZE) as nat,
                    samples,
                ) == rows_inverted(assembled(*window, images))
                &&& #[trigger] png_encoding(
                    (window.spec_cols() * TILE_SIZE) as u32,
                    (window.spec_rows() * TILE_SIZE) as u32,
                    samples,
                ) == (match out {
                    Ok(bytes) => Some(bytes@),
                    Err(_) => None,
                })
            },
{
    let canvas = draw_map(window, viewer, shade);
    let out = encode(&canvas);
    proof {
        let images = choose|images: Map<(i32, i32), Seq<Seq<Rgb>>>| #[trigger]
            pass_done(shade, *window, viewer@, images) && canvas@ == rows_inverted(assembled(*window, images));
        let samples = canvas.samples();
        assert(pass_done(shade, *window, viewer@, images));
        assert(grid_of(
            (window.spec_cols() * TILE_SIZE) as nat,
            (window.spec_rows() * TILE_SIZE) as nat,
            samples,
        ) == canvas@);
        assert(png_encoding(
            (window.spec_cols() * TILE_SIZE) as u32,
            (window.spec_rows() * TILE_SIZE) as u32,
            samples,
        ) == (match out {
            Ok(bytes) => Some(bytes@),
            Err(_) => None,
        }));
    }
    out
}

} // verus!
