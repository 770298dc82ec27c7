//! Tiles that hold one occupant: a building or a unit of one faction.

use vstd::prelude::*;
use crate::tiles::span;

verus! {

/// A unit on a tile: the tag of its faction and the name of its kind.
#[derive(Debug)]
pub struct Unit {
    pub faction: String,
    pub unit_type: String,
}

/// A building on a tile: the tag of its faction and the name of its kind.
#[derive(Debug)]
pub struct Building {
    pub faction: String,
    pub building_type: String,
}

/// What stands on a tile. `is_unit` says which of the two it is.
#[derive(Debug)]
pub struct TileOccupant {
    pub faction: String,
    pub is_unit: bool,
    pub building: Building,
    pub unit: Unit,
}

/// A tile with at most one occupant.
#[derive(Debug)]
pub struct Tile {
    pub occupied: bool,
    pub occupant: TileOccupant,
    pub x: i32,
    pub y: i32,
}

impl Tile {
    /// True of a tile on which nothing stands and of which nothing is said:
    /// every text in it is empty.
    pub open spec fn is_blank(&self) -> bool {
        &&& !self.occupied
        &&& !self.occupant.is_unit
        &&& self.occupant.faction@.len() == 0
        &&& self.occupant.building.faction@.len() == 0
        &&& self.occupant.building.building_type@.len() == 0
        &&& self.occupant.unit.faction@.len() == 0
        &&& self.occupant.unit.unit_type@.len() == 0
    }
}

/// The blank tile at the origin.
pub fn blank_tile() -> (t: Tile)
    ensures
        t.is_blank(),
        t.x == 0,
        t.y == 0,
{
    Tile {
        occupied: false,
        occupant: TileOccupant {
            faction: String::new(),
            is_unit: false,
            building: Building { faction: String::new(), building_type: String::new() },
            unit: Unit { faction: String::new(), unit_type: String::new() },
        },
        x: 0,
        y: 0,
    }
}

/// Blank tiles for every place with `x` in the first range and `y` in the
/// second, each range without its upper end: column by column, from the
/// lowest `x`, and within a column from the lowest `y`.
pub fn blank_tile_range(x_range: (i32, i32), y_range: (i32, i32)) -> (tiles: Vec<Tile>)
    ensures
        tiles@.len() == span(x_range) * span(y_range),
        forall|i: int, j: int|
            0 <= i < span(x_range) && 0 <= j < span(y_range) ==> {
                &&& (#[trigger] tiles@[i * span(y_range) + j]).is_blank()
                &&& tiles@[i * span(y_range) + j].x == x_range.0 + i
                &&& tiles@[i * span(y_range) + j].y == y_range.0 + j
            },
{
    let mut tiles: Vec<Tile> = Vec::new();
    let ghost ny = span(y_range) as int;
    if x_range.0 >= x_range.1 || y_range.0 >= y_range.1 {
        assert(span(x_range) * span(y_range) == 0) by (nonlinear_arith)
            requires
                span(x_range) == 0 || span(y_range) == 0,
        ;
        return tiles;
    }
    let mut x: i32 = x_range.0;
    while x < x_range.1
        invariant
            x_range.0 <= x <= x_range.1,
            y_range.0 < y_range.1,
            ny == span(y_range),
            tiles@.len() == (x - x_range.0) * ny,
            forall|i: int, j: int|
                0 <= i < x - x_range.0 && 0 <= j < ny ==> {
                    &&& (#[trigger] tiles@[i * ny + j]).is_blank()
                    &&& tiles@[i * ny + j].x == x_range.0 + i
                    &&& tiles@[i * ny + j].y == y_range.0 + j
                },
        decreases x_range.1 - x,
    {
        let ghost done = tiles@;
        let ghost col = (x - x_range.0) as int;
        let mut y: i32 = y_range.0;
        while y < y_range.1
            invariant
                x_range.0 <= x < x_range.1,
                y_range.0 <= y <= y_range.1,
                ny == span(y_range),
                col == x - x_range.0,
                done.len() == col * ny,
                tiles@.len() == col * ny + (y - y_range.0),
                tiles@.subrange(0, done.len() as int) == done,
                forall|j: int|
                    0 <= j < y - y_range.0 ==> {
                        &&& (#[trigger] tiles@[col * ny + j]).is_blank()
                        &&& tiles@[col * ny + j].x == x
                        &&& tiles@[col * ny + j].y == y_range.0 + j
                    },
            decreases y_range.1 - y,
        {
            let ghost before = tiles@;
            let mut t = blank_tile();
            t.x = x;
            t.y = y;
            tiles.push(t);
            assert(tiles@.subrange(0, done.len() as int) =~= before.subrange(0, done.len() as int));
            assert forall|j: int| 0 <= j < y + 1 - y_range.0 implies {
                &&& (#[trigger] tiles@[col * ny + j]).is_blank()
                &&& tiles@[col * ny + j].x == x
                &&& tiles@[col * ny + j].y == y_range.0 + j
            } by {
                if j < y - y_range.0 {
                    assert(tiles@[col * ny + j] == before[col * ny + j]);
                }
            }
            y = y + 1;
        }
        assert forall|i: int, j: int| 0 <= i < x + 1 - x_range.0 && 0 <= j < ny implies {
            &&& (#[trigger] tiles@[i * ny + j]).is_blank()
            &&& tiles@[i * ny + j].x == x_range.0 + i
            &&& tiles@[i * ny + j].y == y_range.0 + j
        } by {
            if i < col {
                assert(0 <= i * ny + j < col * ny) by (nonlinear_arith)
                    requires
                        0 <= i < col,
                        0 <= j < ny,
                ;
                assert(tiles@[i * ny + j] == tiles@.subrange(0, done.len() as int)[i * ny + j]);
                assert(done[i * ny + j].is_blank());
            }
        }
        assert((x + 1 - x_range.0) * ny == col * ny + ny) by (nonlinear_arith)
            requires
                col == x - x_range.0,
        ;
        x = x + 1;
    }
    tiles
}

} // verus!
