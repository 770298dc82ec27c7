//! Making blank tiles and rearranging grids of tiles.

use vstd::prelude::*;
use crate::types::map::{blank_view, Tile};

verus! {

/// The number of integers from `range.0` up to, and without, `range.1`.
pub open spec fn span(range: (i32, i32)) -> nat {
    if range.0 < range.1 {
        (range.1 - range.0) as nat
    } else {
        0
    }
}

/// The tile that stands for a place of which nothing is recorded: nobody
/// occupies it, no faction claims it, and nothing stands on it.
pub fn blank_tile(x: i32, y: i32) -> (t: Tile)
    ensures
        t@ == blank_view(x, y),
{
    Tile { occupied: false, faction: String::new(), buildings: Vec::new(), units: Vec::new(), x, y }
}

/// Blank tiles for every place with `x` in the first range and `y` in the
/// second, each range without its upper end: column by column, from the
/// lowest `x`, and within a column from the lowest `y`.
pub fn blank_tile_range(x_range: (i32, i32), y_range: (i32, i32)) -> (tiles: Vec<Tile>)
    ensures
        tiles@.len() == span(x_range) * span(y_range),
        forall|i: int, j: int|
            0 <= i < span(x_range) && 0 <= j < span(y_range) ==> (#[trigger] tiles@[i * span(y_range) + j])@
                == blank_view((x_range.0 + i) as i32, (y_range.0 + j) as i32),
{
    let mut tiles: Vec<Tile> = Vec::new();
    let ghost ny = span(y_range) as int;
    if x_range.0 >= x_range.1 || y_range.0 >= y_range.1 {
        assert(span(x_range) * span(y_range) == 0) by (nonlinear_arith)
            requires
                span(x_range) == 0 || span(y_range) == 0,
        ;
        return tiles;
    }
    let mut x: i32 = x_range.0;
    while x < x_range.1
        invariant
            x_range.0 <= x <= x_range.1,
            y_range.0 < y_range.1,
            ny == span(y_range),
            tiles@.len() == (x - x_range.0) * ny,
            forall|i: int, j: int|
                0 <= i < x - x_range.0 && 0 <= j < ny ==> (#[trigger] tiles@[i * ny + j])@ == blank_view(
                    (x_range.0 + i) as i32,
                    (y_range.0 + j) as i32,
                ),
        decreases x_range.1 - x,
    {
        let ghost done = tiles@;
        let ghost col = (x - x_range.0) as int;
        let mut y: i32 = y_range.0;
        while y < y_range.1
            invariant
                x_range.0 <= x < x_range.1,
                y_range.0 <= y <= y_range.1,
                ny == span(y_range),
                col == x - x_range.0,
                done.len() == col * ny,
                tiles@.len() == col * ny + (y - y_range.0),
                tiles@.subrange(0, done.len() as int) == done,
                forall|j: int|
                    0 <= j < y - y_range.0 ==> (#[trigger] tiles@[col * ny + j])@ == blank_view(
                        x,
                        (y_range.0 + j) as i32,
                    ),
            decreases y_range.1 - y,
        {
            let ghost before = tiles@;
            tiles.push(blank_tile(x, y));
            assert(tiles@.subrange(0, done.len() as int) =~= before.subrange(0, done.len() as int));
            assert forall|j: int| 0 <= j < y + 1 - y_range.0 implies (#[trigger] tiles@[col * ny + j])@
                == blank_view(x, (y_range.0 + j) as i32) by {
                if j < y - y_range.0 {
                    assert(tiles@[col * ny + j] == before[col * ny + j]);
                }
            }
            y = y + 1;
        }
        assert forall|i: int, j: int| 0 <= i < x + 1 - x_range.0 && 0 <= j < ny implies (#[trigger] tiles@[i
            * ny + j])@ == blank_view((x_range.0 + i) as i32, (y_range.0 + j) as i32) by {
            if i < col {
                assert(0 <= i * ny + j < col * ny) by (nonlinear_arith)
                    requires
                        0 <= i < col,
                        0 <= j < ny,
                ;
                assert(tiles@[i * ny + j] == tiles@.subrange(0, done.len() as int)[i * ny + j]);
                assert(done[i * ny + j]@ == blank_view((x_range.0 + i) as i32, (y_range.0 + j) as i32));
            }
        }
        assert((x + 1 - x_range.0) * ny == col * ny + ny) by (nonlinear_arith)
            requires
                col == x - x_range.0,
        ;
        x = x + 1;
    }
    tiles
}

/// The same items in the opposite order.
pub fn reversed<T>(items: Vec<T>) -> (out: Vec<T>)
    ensures
        out@ == items@.reverse(),
{
    let mut rest = items;
    let mut out: Vec<T> = Vec::new();
    let ghost all = rest@;
    while rest.len() > 0
        invariant
            rest@.len() + out@.len() == all.len(),
            rest@ == all.subrange(0, rest@.len() as int),
            forall|k: int| 0 <= k < out@.len() ==> #[trigger] out@[k] == all[all.len() - 1 - k],
        decreases rest.len(),
    {
        let item = rest.pop().unwrap();
        out.push(item);
    }
    assert(out@ =~= all.reverse());
    out
}

/// Turns every column of the grid upside down: each inner list comes back in
/// the opposite order, and the outer order stays.
pub fn invert_y(tiles: Vec<Vec<Tile>>) -> (out: Vec<Vec<Tile>>)
    ensures
        out@.len() == tiles@.len(),
        forall|i: int| 0 <= i < tiles@.len() ==> (#[trigger] out@[i])@ == tiles@[i]@.reverse(),
{
    let mut rest = reversed(tiles);
    let mut out: Vec<Vec<Tile>> = Vec::new();
    let ghost n = tiles@.len() as int;
    while rest.len() > 0
        invariant
            n == tiles@.len(),
            rest@.len() + out@.len() == n,
            forall|k: int| 0 <= k < rest@.len() ==> #[trigger] rest@[k] == tiles@[n - 1 - k],
            forall|i: int| 0 <= i < out@.len() ==> (#[trigger] out@[i])@ == tiles@[i]@.reverse(),
        decreases rest.len(),
    {
        let row = rest.pop().unwrap();
        let turned = reversed(row);
        out.push(turned);
    }
    out
}

} // verus!
