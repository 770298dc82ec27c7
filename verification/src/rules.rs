//! The rules of the game that do not need the store: what a faction can see,
//! what fits on a tile, and what a march costs.

use vstd::prelude::*;
use crate::counts::{building_count, count_of, unit_count};
use crate::geometry::VIEW_DISTANCE;
use crate::types::buildings::Building;
use crate::types::map::Tile;
use crate::types::units::Unit;

verus! {

/// The room on one tile.
pub const TILE_SPACE: i32 = 100;

/// How far from the origin a capital may be founded, along either axis.
pub const MAX_CAPITAL_DIST: i32 = 500;

/// How far around a new capital no tile may be recorded yet.
pub const CAPITAL_PLACE_RANGE: i32 = VIEW_DISTANCE * 3;

/// True where one of the tiles belongs to the faction.
pub open spec fn spec_any_held_by(tiles: Seq<Tile>, faction: Seq<char>) -> bool {
    exists|k: int| 0 <= k < tiles.len() && (#[trigger] tiles[k])@.faction == faction
}

/// Whether one of the tiles belongs to the faction. A faction sees a place
/// where it holds a tile within reach of it.
pub fn any_held_by(tiles: &Vec<Tile>, faction: &String) -> (held: bool)
    ensures
        held == spec_any_held_by(tiles@, faction@),
{
    let mut k: usize = 0;
    while k < tiles.len()
        invariant
            0 <= k <= tiles.len(),
            forall|j: int| 0 <= j < k ==> (#[trigger] tiles@[j])@.faction != faction@,
        decreases tiles.len() - k,
    {
        if tiles[k].faction == *faction {
            return true;
        }
        k = k + 1;
    }
    false
}

/// The ranges of `x` and of `y` within which a faction must hold a tile to
/// see the place at the given coordinates: the view distance to either side.
/// `None` where they would leave the coordinates of the world.
pub fn sight_range(x: i32, y: i32) -> (out: Option<((i32, i32), (i32, i32))>)
    ensures
        out is Some <==> {
            &&& i32::MIN <= x - VIEW_DISTANCE
            &&& x + VIEW_DISTANCE <= i32::MAX
            &&& i32::MIN <= y - VIEW_DISTANCE
            &&& y + VIEW_DISTANCE <= i32::MAX
        },
        out matches Some(ranges) ==> {
            &&& ranges.0.0 == x - VIEW_DISTANCE
            &&& ranges.0.1 == x + VIEW_DISTANCE
            &&& ranges.1.0 == y - VIEW_DISTANCE
            &&& ranges.1.1 == y + VIEW_DISTANCE
        },
{
    match (
        x.checked_sub(VIEW_DISTANCE),
        x.checked_add(VIEW_DISTANCE),
        y.checked_sub(VIEW_DISTANCE),
        y.checked_add(VIEW_DISTANCE),
    ) {
        (Some(x0), Some(x1), Some(y0), Some(y1)) => Some(((x0, x1), (y0, y1))),
        _ => None,
    }
}

/// Whether a capital may be founded at the given coordinates: no further
/// from the origin than the limit, along either axis.
pub fn capital_in_bounds(x: i32, y: i32) -> (ok: bool)
    ensures
        ok == (-MAX_CAPITAL_DIST <= x <= MAX_CAPITAL_DIST && -MAX_CAPITAL_DIST <= y <= MAX_CAPITAL_DIST),
{
    -MAX_CAPITAL_DIST <= x && x <= MAX_CAPITAL_DIST && -MAX_CAPITAL_DIST <= y && y <= MAX_CAPITAL_DIST
}

/// The room that the buildings of a tile take: for each kind, its count
/// times the room of one building.
pub open spec fn spec_used_space(buildings: Seq<(Building, u32)>) -> int {
    Building::Farm.spec_space() * count_of(buildings, Building::Farm) + Building::Mill.spec_space() * count_of(
        buildings,
        Building::Mill,
    ) + Building::Blacksmith.spec_space() * count_of(buildings, Building::Blacksmith)
        + Building::Barracks.spec_space() * count_of(buildings, Building::Barracks)
        + Building::Capital.spec_space() * count_of(buildings, Building::Capital) + Building::House.spec_space()
        * count_of(buildings, Building::House) + Building::Hut.spec_space() * count_of(buildings, Building::Hut)
}

/// The room that the buildings of one kind take on a tile.
fn room_taken(buildings: &Vec<(Building, u32)>, kind: Building) -> (room: u64)
    ensures
        room == kind.spec_space() * count_of(buildings@, kind),
        room <= 100 * 0xffff_ffff,
{
    let count = building_count(buildings, kind);
    let each = kind.space();
    assert(0 <= each * count <= 100 * 0xffff_ffff) by (nonlinear_arith)
        requires
            0 <= each <= 100,
            0 <= count <= 0xffff_ffff,
    ;
    (each as u64) * (count as u64)
}

/// The room that the buildings of a tile take.
pub fn used_space(buildings: &Vec<(Building, u32)>) -> (used: u64)
    ensures
        used == spec_used_space(buildings@),
{
    room_taken(buildings, Building::Farm) + room_taken(buildings, Building::Mill) + room_taken(
        buildings,
        Building::Blacksmith,
    ) + room_taken(buildings, Building::Barracks) + room_taken(buildings, Building::Capital) + room_taken(
        buildings,
        Building::House,
    ) + room_taken(buildings, Building::Hut)
}

/// True where `amount` more buildings of a kind fit on a tile beside the
/// buildings that stand on it.
pub open spec fn spec_has_room(buildings: Seq<(Building, u32)>, building: Building, amount: i32) -> bool {
    amount * building.spec_space() <= TILE_SPACE - spec_used_space(buildings)
}

/// Whether `amount` more buildings of a kind fit on a tile beside the
/// buildings that stand on it.
pub fn has_room(buildings: &Vec<(Building, u32)>, building: Building, amount: i32) -> (fits: bool)
    ensures
        fits == spec_has_room(buildings@, building, amount),
{
    let used = used_space(buildings);
    let each = building.space();
    assert(-0x80_0000_0000 <= amount * each <= 0x80_0000_0000) by (nonlinear_arith)
        requires
            0 <= each <= 100,
            -0x8000_0000 <= amount <= 0x7fff_ffff,
    ;
    let wanted: i64 = (amount as i64) * (each as i64);
    if wanted > TILE_SPACE as i64 {
        false
    } else {
        used <= (TILE_SPACE as i64 - wanted) as u64
    }
}

/// The food that one unit of a kind eats on a march of one tile.
pub open spec fn spec_food_weight(unit: Unit) -> int {
    match unit {
        Unit::Citizen => 0,
        Unit::Scout => 1,
        Unit::Soldier => 1,
        Unit::Cavalry => 2,
        Unit::Ranger => 3,
        Unit::Knight => 4,
    }
}

/// The food that one unit of a kind eats on a march of one tile.
pub fn food_weight(unit: Unit) -> (w: u32)
    ensures
        w == spec_food_weight(unit),
{
    match unit {
        Unit::Citizen => 0,
        Unit::Scout => 1,
        Unit::Soldier => 1,
        Unit::Cavalry => 2,
        Unit::Ranger => 3,
        Unit::Knight => 4,
    }
}

/// The food that the units of a tile eat on a march of one tile: for each
/// kind, its count times what one unit eats.
pub open spec fn spec_rations(units: Seq<(Unit, u32)>) -> int {
    spec_food_weight(Unit::Scout) * count_of(units, Unit::Scout) + spec_food_weight(Unit::Soldier) * count_of(
        units,
        Unit::Soldier,
    ) + spec_food_weight(Unit::Cavalry) * count_of(units, Unit::Cavalry) + spec_food_weight(Unit::Ranger)
        * count_of(units, Unit::Ranger) + spec_food_weight(Unit::Knight) * count_of(units, Unit::Knight)
}

/// The food that a march costs: what the units on the tile eat on one tile,
/// times the distance, and one where that is nothing.
pub open spec fn spec_food_cost(units: Seq<(Unit, u32)>, distance: u32) -> int {
    let cost = spec_rations(units) * distance;
    if cost == 0 {
        1
    } else {
        cost
    }
}

/// The food that the units of one kind eat on a march of one tile.
fn rations_of(units: &Vec<(Unit, u32)>, kind: Unit) -> (eaten: u64)
    ensures
        eaten == spec_food_weight(kind) * count_of(units@, kind),
        eaten <= 4 * 0xffff_ffff,
{
    let count = unit_count(units, kind);
    let each = food_weight(kind);
    assert(0 <= each * count <= 4 * 0xffff_ffff) by (nonlinear_arith)
        requires
            0 <= each <= 4,
            0 <= count <= 0xffff_ffff,
    ;
    (each as u64) * (count as u64)
}

/// The food that a march over the given distance costs, for the units that
/// stand on the tile it starts from.
pub fn food_cost(units: &Vec<(Unit, u32)>, distance: u32) -> (cost: u128)
    ensures
        cost == spec_food_cost(units@, distance),
{
    let rations: u64 = rations_of(units, Unit::Scout) + rations_of(units, Unit::Soldier) + rations_of(
        units,
        Unit::Cavalry,
    ) + rations_of(units, Unit::Ranger) + rations_of(units, Unit::Knight);
    assert(0 <= rations * distance <= 20 * 0xffff_ffff * 0xffff_ffff) by (nonlinear_arith)
        requires
            0 <= rations <= 20 * 0xffff_ffff,
            0 <= distance <= 0xffff_ffff,
    ;
    let cost: u128 = (rations as u128) * (distance as u128);
    if cost == 0 {
        1
    } else {
        cost
    }
}

/// True of the least whole number whose square is not below `n`.
pub open spec fn is_ceil_sqrt(n: int, root: int) -> bool {
    &&& 0 <= root
    &&& n <= root * root
    &&& root == 0 || (root - 1) * (root - 1) < n
}

/// The square of the length of the straight line between two tiles, or
/// `None` where it is more than the machine holds in 32 bits with a sign.
pub fn squared_distance(from_x: i32, from_y: i32, to_x: i32, to_y: i32) -> (out: Option<i32>)
    ensures
        out is Some <==> (from_x - to_x) * (from_x - to_x) + (from_y - to_y) * (from_y - to_y) <= i32::MAX,
        out matches Some(n) ==> n == (from_x - to_x) * (from_x - to_x) + (from_y - to_y) * (from_y - to_y),
{
    let dx: i64 = from_x as i64 - to_x as i64;
    let dy: i64 = from_y as i64 - to_y as i64;
    let limit: i64 = 46_340;
    assert(dx * dx >= 0 && dy * dy >= 0) by (nonlinear_arith);
    if dx > limit || dx < -limit || dy > limit || dy < -limit {
        assert(dx * dx > i32::MAX || dy * dy > i32::MAX) by (nonlinear_arith)
            requires
                dx > 46_340 || dx < -46_340 || dy > 46_340 || dy < -46_340,
        ;
        return None;
    }
    assert(dx * dx <= 46_340 * 46_340 && dy * dy <= 46_340 * 46_340) by (nonlinear_arith)
        requires
            -46_340 <= dx <= 46_340,
            -46_340 <= dy <= 46_340,
    ;
    let n: i64 = dx * dx + dy * dy;
    if n > i32::MAX as i64 {
        None
    } else {
        Some(n as i32)
    }
}

/// The distance of a march, given the square of the length of the straight
/// line between its ends: that length, rounded up to a whole number of
/// tiles.
pub fn travel_distance(squared: i32) -> (distance: u32)
    ensures
        is_ceil_sqrt(squared as int, distance as int),
        distance <= 46_341,
{
    let n: i64 = squared as i64;
    let mut low: i64 = 0;
    let mut high: i64 = 46_341;
    while low < high
        invariant
            0 <= low <= high <= 46_341,
            n == squared,
            n <= high * high,
            low == 0 || (low - 1) * (low - 1) < n,
        decreases high - low,
    {
        let mid: i64 = low + (high - low) / 2;
        assert(0 <= mid * mid <= 46_341 * 46_341) by (nonlinear_arith)
            requires
                0 <= mid <= 46_341,
        ;
        if mid * mid >= n {
            high = mid;
        } else {
            low = mid + 1;
        }
    }
    low as u32
}

} // verus!
