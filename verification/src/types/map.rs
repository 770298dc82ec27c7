//! One cell of the world.

use vstd::prelude::*;
use crate::types::buildings::Building;
use crate::types::units::Unit;

verus! {

/// A tile of the world, found by its coordinates. `faction` is the tag of the
/// faction that holds it, empty where nobody does. `buildings` and `units`
/// give a count for each kind that stands on the tile.
#[derive(Debug, Clone)]
pub struct Tile {
    pub occupied: bool,
    pub faction: String,
    pub buildings: Vec<(Building, u32)>,
    pub units: Vec<(Unit, u32)>,
    pub x: i32,
    pub y: i32,
}

/// What a tile holds, as plain values.
pub struct TileView {
    pub occupied: bool,
    pub faction: Seq<char>,
    pub buildings: Seq<(Building, u32)>,
    pub units: Seq<(Unit, u32)>,
    pub x: i32,
    pub y: i32,
}

impl View for Tile {
    type V = TileView;

    open spec fn view(&self) -> TileView {
        TileView {
            occupied: self.occupied,
            faction: self.faction@,
            buildings: self.buildings@,
            units: self.units@,
            x: self.x,
            y: self.y,
        }
    }
}

/// The tile that stands for a place of which nothing is recorded: nobody
/// occupies it, no faction claims it, and nothing stands on it.
pub open spec fn blank_view(x: i32, y: i32) -> TileView {
    TileView { occupied: false, faction: Seq::empty(), buildings: Seq::empty(), units: Seq::empty(), x, y }
}

/// What each tile of a list holds.
pub open spec fn tile_views(tiles: Seq<Tile>) -> Seq<TileView> {
    Seq::new(tiles.len(), |k: int| tiles[k]@)
}

/// What each tile of a grid holds.
pub open spec fn grid_views(grid: Seq<Vec<Tile>>) -> Seq<Seq<TileView>> {
    Seq::new(grid.len(), |i: int| tile_views(grid[i]@))
}

impl TileView {
    /// True where no kind of building and no kind of unit is listed twice.
    pub open spec fn wf(self) -> bool {
        &&& forall|i: int, j: int| 0 <= i < j < self.buildings.len() ==> self.buildings[i].0 != self.buildings[j].0
        &&& forall|i: int, j: int| 0 <= i < j < self.units.len() ==> self.units[i].0 != self.units[j].0
    }
}

impl Tile {
    /// A copy of the tile.
    pub fn duplicate(&self) -> (t: Tile)
        ensures
            t@ == self@,
    {
        let mut buildings: Vec<(Building, u32)> = Vec::new();
        let mut i: usize = 0;
        while i < self.buildings.len()
            invariant
                0 <= i <= self.buildings.len(),
                buildings@ == self.buildings@.subrange(0, i as int),
            decreases self.buildings.len() - i,
        {
            buildings.push(self.buildings[i]);
            assert(buildings@ =~= self.buildings@.subrange(0, i + 1));
            i = i + 1;
        }
        assert(buildings@ =~= self.buildings@);
        let mut units: Vec<(Unit, u32)> = Vec::new();
        let mut j: usize = 0;
        while j < self.units.len()
            invariant
                0 <= j <= self.units.len(),
                units@ == self.units@.subrange(0, j as int),
            decreases self.units.len() - j,
        {
            units.push(self.units[j]);
            assert(units@ =~= self.units@.subrange(0, j + 1));
            j = j + 1;
        }
        assert(units@ =~= self.units@);
        Tile { occupied: self.occupied, faction: self.faction.clone(), buildings, units, x: self.x, y: self.y }
    }
}

impl Default for Tile {
    /// The blank tile at the origin.
    fn default() -> (t: Tile)
        ensures
            t@ == blank_view(0, 0),
    {
        Tile { occupied: false, faction: String::new(), buildings: Vec::new(), units: Vec::new(), x: 0, y: 0 }
    }
}

} // verus!
