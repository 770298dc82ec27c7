//! Drawing one tile: a textured background, a frame on the tile that the map
//! is centred on, and a rounded square in the colour of whoever holds the tile.

use vstd::prelude::*;
use crate::color::{accent, friendly, hostile, neutral, Rgb};
use crate::geometry::{spec_sample_coordinate, sample_coordinate, BORDER_SIZE, INSET_SIZE, IN_TILE_SIZE, TILE_SIZE};
use crate::raster::{disc_filled, Raster};
use crate::types::map::{Tile, TileView};

verus! {

/// True of a raster that has the size of one tile.
pub open spec fn tile_sized(img: Raster) -> bool {
    img.spec_width() == TILE_SIZE && img.spec_height() == TILE_SIZE
}

/// A grid of pixels in which those that `mask` picks have the colour `c` and
/// the others are as they were.
pub open spec fn painted(grid: Seq<Seq<Rgb>>, mask: spec_fn(int, int) -> bool, c: Rgb) -> Seq<Seq<Rgb>> {
    Seq::new(
        grid.len(),
        |y: int|
            Seq::new(
                grid[y].len(),
                |x: int|
                    if mask(x, y) {
                        c
                    } else {
                        grid[y][x]
                    },
            ),
    )
}

/// True of the pixels of the frame on the centre tile: a bar along the middle
/// half of each edge, as thick as the border.
pub open spec fn on_center_frame(x: int, y: int) -> bool {
    let from = TILE_SIZE / 4;
    let to = TILE_SIZE / 4 + TILE_SIZE / 2;
    let far = TILE_SIZE - BORDER_SIZE;
    ||| 0 <= x < BORDER_SIZE && from <= y < to
    ||| from <= x < to && 0 <= y < BORDER_SIZE
    ||| far <= x < TILE_SIZE && from <= y < to
    ||| from <= x < to && far <= y < TILE_SIZE
}

/// True of the pixels of the cross that joins the four discs of the motif: an
/// upright bar and a level bar, each as long as the motif and half as wide.
pub open spec fn on_cross(x: int, y: int) -> bool {
    let near = INSET_SIZE + IN_TILE_SIZE / 4;
    let far = INSET_SIZE + IN_TILE_SIZE / 4 + IN_TILE_SIZE / 2;
    ||| near <= x < far && INSET_SIZE <= y < INSET_SIZE + IN_TILE_SIZE
    ||| INSET_SIZE <= x < INSET_SIZE + IN_TILE_SIZE && near <= y < far
}

/// True of the pixels of the square that holds the motif.
pub open spec fn in_motif_square(x: int, y: int) -> bool {
    INSET_SIZE <= x < INSET_SIZE + IN_TILE_SIZE && INSET_SIZE <= y < INSET_SIZE + IN_TILE_SIZE
}

/// The colour of the motif: neutral on a tile that nobody occupies, friendly
/// where the tile's faction is the viewer's, hostile otherwise.
pub open spec fn spec_occupancy_color(occupied: bool, faction: Seq<char>, viewer: Seq<char>) -> Rgb {
    if !occupied {
        neutral()
    } else if faction == viewer {
        friendly()
    } else {
        hostile()
    }
}

/// The colour of the motif on a tile, as the viewer's faction sees it.
pub fn occupancy_color(tile: &Tile, viewer: &String) -> (c: Rgb)
    ensures
        c == spec_occupancy_color(tile@.occupied, tile@.faction, viewer@),
{
    if tile.occupied {
        if tile.faction == *viewer {
            friendly()
        } else {
            hostile()
        }
    } else {
        neutral()
    }
}

/// The grid after the four discs of the motif were painted on it, one in each
/// quarter of the motif's square.
pub open spec fn corners_stamped(grid: Seq<Seq<Rgb>>, c: Rgb) -> Seq<Seq<Rgb>> {
    let r: i32 = (IN_TILE_SIZE / 4) as i32;
    let near: i32 = (INSET_SIZE + IN_TILE_SIZE / 4) as i32;
    let far: i32 = (INSET_SIZE + (IN_TILE_SIZE / 4) * 3) as i32;
    disc_filled(disc_filled(disc_filled(disc_filled(grid, near, near, r, c), far, near, r, c), near, far, r, c), far, far, r, c)
}

/// What a tile looks like: the background, under the frame where the tile is
/// the centre of the map, under the motif in the colour of its occupancy.
pub open spec fn tile_rendered(
    background: Seq<Seq<Rgb>>,
    occupied: bool,
    faction: Seq<char>,
    viewer: Seq<char>,
    is_center: bool,
) -> Seq<Seq<Rgb>> {
    let base = if is_center {
        painted(background, |x: int, y: int| on_center_frame(x, y), accent())
    } else {
        background
    };
    let c = spec_occupancy_color(occupied, faction, viewer);
    painted(corners_stamped(base, c), |x: int, y: int| on_cross(x, y), c)
}

/// True of a grid of pixels that can be the background of the tile at the
/// given coordinates: it has the size of a tile, and each pixel has a colour
/// that `shade` may give for the point at which the texture is sampled for it.
pub open spec fn textured<F: Fn(i64, i64) -> Rgb>(shade: &F, tile_x: i32, tile_y: i32, grid: Seq<Seq<Rgb>>) -> bool {
    &&& grid.len() == TILE_SIZE
    &&& forall|y: int| 0 <= y < TILE_SIZE ==> (#[trigger] grid[y]).len() == TILE_SIZE
    &&& forall|x: int, y: int|
        0 <= x < TILE_SIZE && 0 <= y < TILE_SIZE ==> shade.ensures(
            (spec_sample_coordinate(tile_x, x as u32) as i64, spec_sample_coordinate(tile_y, y as u32) as i64),
            #[trigger] grid[y][x],
        )
}

/// True of a picture that shows a tile over a background: every pixel has the
/// colour `c` of the tile's occupancy, or the colour of the background, or on
/// the frame of the centre tile the accent colour. On the cross of the motif
/// it has the colour `c`. Outside the motif's square it shows the frame of the
/// centre tile or else the background.
pub open spec fn shows(img: Seq<Seq<Rgb>>, background: Seq<Seq<Rgb>>, c: Rgb, is_center: bool) -> bool {
    forall|x: int, y: int|
        0 <= y < background.len() && 0 <= x < background[y].len() ==> {
            &&& {
                ||| #[trigger] img[y][x] == c
                ||| img[y][x] == background[y][x]
                ||| is_center && on_center_frame(x, y) && img[y][x] == accent()
            }
            &&& on_cross(x, y) ==> img[y][x] == c
            &&& !in_motif_square(x, y) ==> img[y][x] == (if is_center && on_center_frame(x, y) {
                accent()
            } else {
                background[y][x]
            })
        }
}

/// Paints the background of the tile at the given coordinates: each pixel has
/// the colour that `shade` gives for the point at which the texture is sampled
/// for it.
pub fn paint_background<F: Fn(i64, i64) -> Rgb>(tile_x: i32, tile_y: i32, shade: &F) -> (img: Raster)
    requires
        forall|ax: i64, ay: i64| #[trigger] shade.requires((ax, ay)),
    ensures
        tile_sized(img),
        textured(shade, tile_x, tile_y, img@),
{
    let side: u32 = TILE_SIZE as u32;
    let made = Raster::new(side, side);
    let mut img = made.unwrap();
    let mut x: u32 = 0;
    while x < side
        invariant
            0 <= x <= side,
            side == TILE_SIZE,
            tile_sized(img),
            forall|ax: i64, ay: i64| #[trigger] shade.requires((ax, ay)),
            forall|xx: int, yy: int|
                0 <= xx < x && 0 <= yy < TILE_SIZE ==> shade.ensures(
                    (
                        spec_sample_coordinate(tile_x, xx as u32) as i64,
                        spec_sample_coordinate(tile_y, yy as u32) as i64,
                    ),
                    #[trigger] img@[yy][xx],
                ),
        decreases side - x,
    {
        let ax = sample_coordinate(tile_x, x);
        let mut y: u32 = 0;
        while y < side
            invariant
                0 <= y <= side,
                0 <= x < side,
                side == TILE_SIZE,
                tile_sized(img),
                ax == spec_sample_coordinate(tile_x, x),
                forall|ax: i64, ay: i64| #[trigger] shade.requires((ax, ay)),
                forall|xx: int, yy: int|
                    0 <= xx < x && 0 <= yy < TILE_SIZE ==> shade.ensures(
                        (
                            spec_sample_coordinate(tile_x, xx as u32) as i64,
                            spec_sample_coordinate(tile_y, yy as u32) as i64,
                        ),
                        #[trigger] img@[yy][xx],
                    ),
                forall|yy: int|
                    0 <= yy < y ==> shade.ensures(
                        (
                            spec_sample_coordinate(tile_x, x) as i64,
                            spec_sample_coordinate(tile_y, yy as u32) as i64,
                        ),
                        #[trigger] img@[yy][x as int],
                    ),
            decreases side - y,
        {
            let ay = sample_coordinate(tile_y, y);
            let c = shade(ax, ay);
            img.put_pixel(x, y, c);
            y = y + 1;
        }
        x = x + 1;
    }
    img
}

/// Paints the frame that marks the tile on which the map is centred.
pub fn mark_center(img: &mut Raster)
    ensures
        final(img).width() == old(img).width(),
        final(img).height() == old(img).height(),
        final(img)@ == painted(old(img)@, |x: int, y: int| on_center_frame(x, y), accent()),
{
    let from: i32 = TILE_SIZE / 4;
    let length: u32 = (TILE_SIZE / 2) as u32;
    let thick: u32 = BORDER_SIZE as u32;
    let far: i32 = TILE_SIZE - BORDER_SIZE;
    img.fill_rect(0, from, thick, length, accent());
    img.fill_rect(from, 0, length, thick, accent());
    img.fill_rect(far, from, thick, length, accent());
    img.fill_rect(from, far, length, thick, accent());
    assert(img@ =~~= painted(old(img)@, |x: int, y: int| on_center_frame(x, y), accent()));
}

/// Paints the four discs of the motif, one in each quarter of its square.
/// Every pixel keeps its colour or takes the given one, and the pixels
/// outside the motif's square keep theirs.
pub fn stamp_corners(img: &mut Raster, c: Rgb)
    ensures
        final(img).width() == old(img).width(),
        final(img).height() == old(img).height(),
        final(img)@ == corners_stamped(old(img)@, c),
        forall|x: int, y: int|
            0 <= x < old(img).width() && 0 <= y < old(img).height() ==> {
                ||| #[trigger] final(img)@[y][x] == c
                ||| final(img)@[y][x] == old(img)@[y][x]
            },
        forall|x: int, y: int|
            0 <= x < old(img).width() && 0 <= y < old(img).height() && !in_motif_square(x, y)
                ==> #[trigger] final(img)@[y][x] == old(img)@[y][x],
{
    let r: i32 = IN_TILE_SIZE / 4;
    let near: i32 = INSET_SIZE + IN_TILE_SIZE / 4;
    let far: i32 = INSET_SIZE + (IN_TILE_SIZE / 4) * 3;
    img.fill_disc(near, near, r, c);
    img.fill_disc(far, near, r, c);
    img.fill_disc(near, far, r, c);
    img.fill_disc(far, far, r, c);
}

/// Paints the cross that joins the four discs of the motif.
pub fn bridge_corners(img: &mut Raster, c: Rgb)
    ensures
        final(img).width() == old(img).width(),
        final(img).height() == old(img).height(),
        final(img)@ == painted(old(img)@, |x: int, y: int| on_cross(x, y), c),
{
    let near: i32 = INSET_SIZE + IN_TILE_SIZE / 4;
    img.fill_rect(near, INSET_SIZE, (IN_TILE_SIZE / 2) as u32, IN_TILE_SIZE as u32, c);
    img.fill_rect(INSET_SIZE, near, IN_TILE_SIZE as u32, (IN_TILE_SIZE / 2) as u32, c);
    assert(img@ =~~= painted(old(img)@, |x: int, y: int| on_cross(x, y), c));
}

/// Draws a tile over its background, as the viewer's faction sees it.
/// `is_center` says whether the map is centred on this tile.
pub fn render_tile(tile: &Tile, background: Raster, viewer: &String, is_center: bool) -> (img: Raster)
    ensures
        img.width() == background.width(),
        img.height() == background.height(),
        img@ == tile_rendered(background@, tile@.occupied, tile@.faction, viewer@, is_center),
        shows(img@, background@, spec_occupancy_color(tile@.occupied, tile@.faction, viewer@), is_center),
{
    let mut img = background;
    if is_center {
        mark_center(&mut img);
    }
    let c = occupancy_color(tile, viewer);
    stamp_corners(&mut img, c);
    bridge_corners(&mut img, c);
    img
}

/// True of a picture that one job of rendering may hand in for a tile: it
/// shows the tile over a background that `shade` may give.
pub open spec fn job_done<F: Fn(i64, i64) -> Rgb>(
    shade: &F,
    tile: TileView,
    viewer: Seq<char>,
    is_center: bool,
    img: Seq<Seq<Rgb>>,
) -> bool {
    exists|background: Seq<Seq<Rgb>>|
        {
            &&& textured(shade, tile.x, tile.y, background)
            &&& img == tile_rendered(background, tile.occupied, tile.faction, viewer, is_center)
            &&& #[trigger] shows(img, background, spec_occupancy_color(tile.occupied, tile.faction, viewer), is_center)
        }
}

/// One job of rendering: paints the background of the tile with `shade` and
/// draws the tile over it.
pub fn render_job<F: Fn(i64, i64) -> Rgb>(tile: &Tile, viewer: &String, is_center: bool, shade: &F) -> (img: Raster)
    requires
        forall|ax: i64, ay: i64| #[trigger] shade.requires((ax, ay)),
    ensures
        tile_sized(img),
        job_done(shade, tile@, viewer@, is_center, img@),
{
    let background = paint_background(tile.x, tile.y, shade);
    let ghost under = background@;
    let img = render_tile(tile, background, viewer, is_center);
    assert(shows(img@, under, spec_occupancy_color(tile@.occupied, tile@.faction, viewer@), is_center));
    img
}

} // verus!
