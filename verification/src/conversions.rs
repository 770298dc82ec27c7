//! Turning values of one shape into another.

use vstd::prelude::*;
pub use crate::sizes::bytes_to_string;
use crate::text::{lowercase_of, to_lowercase};
use crate::tiles::reversed;
use crate::types::buildings::Building;
use crate::types::map::Tile;
use crate::types::units::Unit;

verus! {

/// Cuts the first `size * size` tiles of a list into `size` lists of `size`
/// tiles each, in the order of the list. A `size` below one gives no list.
pub fn split_tiles(tiles: Vec<Tile>, size: i32) -> (rows: Vec<Vec<Tile>>)
    requires
        size > 0 ==> tiles@.len() >= size * size,
    ensures
        rows@.len() == (if size > 0 {
            size as int
        } else {
            0
        }),
        forall|i: int| 0 <= i < size ==> (#[trigger] rows@[i])@.len() == size,
        forall|i: int, j: int| 0 <= i < size && 0 <= j < size ==> #[trigger] rows@[i]@[j] == tiles@[i * size + j],
{
    let mut rows: Vec<Vec<Tile>> = Vec::new();
    if size <= 0 {
        return rows;
    }
    let ghost n = tiles@.len() as int;
    let mut rest = reversed(tiles);
    let mut i: i32 = 0;
    while i < size
        invariant
            0 <= i <= size,
            n == tiles@.len(),
            n >= size * size,
            rest@.len() == n - i * size,
            forall|k: int| 0 <= k < rest@.len() ==> #[trigger] rest@[k] == tiles@[n - 1 - k],
            rows@.len() == i,
            forall|a: int| 0 <= a < i ==> (#[trigger] rows@[a])@.len() == size,
            forall|a: int, b: int| 0 <= a < i && 0 <= b < size ==> #[trigger] rows@[a]@[b] == tiles@[a * size + b],
        decreases size - i,
    {
        let mut row: Vec<Tile> = Vec::new();
        let mut j: i32 = 0;
        assert(i * size + size <= size * size) by (nonlinear_arith)
            requires
                0 <= i < size,
        ;
        while j < size
            invariant
                0 <= j <= size,
                0 <= i < size,
                n == tiles@.len(),
                i * size + size <= n,
                rest@.len() == n - i * size - j,
                forall|k: int| 0 <= k < rest@.len() ==> #[trigger] rest@[k] == tiles@[n - 1 - k],
                row@.len() == j,
                forall|b: int| 0 <= b < j ==> #[trigger] row@[b] == tiles@[i * size + b],
            decreases size - j,
        {
            let tile = rest.pop().unwrap();
            row.push(tile);
            j = j + 1;
        }
        rows.push(row);
        assert((i + 1) * size == i * size + size) by (nonlinear_arith);
        i = i + 1;
    }
    rows
}

/// The kind of unit with the given name, where there is one.
pub open spec fn spec_unit_named(name: Seq<char>) -> Option<Unit> {
    if name == "citizen"@ {
        Some(Unit::Citizen)
    } else if name == "soldier"@ {
        Some(Unit::Soldier)
    } else if name == "cavalry"@ {
        Some(Unit::Cavalry)
    } else if name == "ranger"@ {
        Some(Unit::Ranger)
    } else if name == "knight"@ {
        Some(Unit::Knight)
    } else if name == "scout"@ {
        Some(Unit::Scout)
    } else {
        None
    }
}

/// The kind of building with the given name, where there is one.
pub open spec fn spec_building_named(name: Seq<char>) -> Option<Building> {
    if name == "farm"@ {
        Some(Building::Farm)
    } else if name == "blacksmith"@ {
        Some(Building::Blacksmith)
    } else if name == "mill"@ {
        Some(Building::Mill)
    } else if name == "barracks"@ {
        Some(Building::Barracks)
    } else if name == "hut"@ {
        Some(Building::Hut)
    } else if name == "house"@ {
        Some(Building::House)
    } else if name == "capital"@ {
        Some(Building::Capital)
    } else {
        None
    }
}

/// True where the text is the given word.
fn is_word(text: &String, word: &str) -> (same: bool)
    ensures
        same == (text@ == word@),
{
    let owned = word.to_owned();
    *text == owned
}

/// The kind of unit that a name stands for. The names are written in small
/// letters; any other text gives `Err(false)`.
pub fn string_to_unit(string: &String) -> (out: Result<Unit, bool>)
    ensures
        out == (match spec_unit_named(string@) {
            Some(unit) => Ok::<Unit, bool>(unit),
            None => Err::<Unit, bool>(false),
        }),
{
    if is_word(string, "citizen") {
        Ok(Unit::Citizen)
    } else if is_word(string, "soldier") {
        Ok(Unit::Soldier)
    } else if is_word(string, "cavalry") {
        Ok(Unit::Cavalry)
    } else if is_word(string, "ranger") {
        Ok(Unit::Ranger)
    } else if is_word(string, "knight") {
        Ok(Unit::Knight)
    } else if is_word(string, "scout") {
        Ok(Unit::Scout)
    } else {
        Err(false)
    }
}

/// The kind of building that a name in small letters stands for. Any other
/// text gives `Err(false)`.
pub fn building_named(name: &String) -> (out: Result<Building, bool>)
    ensures
        out == (match spec_building_named(name@) {
            Some(building) => Ok::<Building, bool>(building),
            None => Err::<Building, bool>(false),
        }),
{
    if is_word(name, "farm") {
        Ok(Building::Farm)
    } else if is_word(name, "blacksmith") {
        Ok(Building::Blacksmith)
    } else if is_word(name, "mill") {
        Ok(Building::Mill)
    } else if is_word(name, "barracks") {
        Ok(Building::Barracks)
    } else if is_word(name, "hut") {
        Ok(Building::Hut)
    } else if is_word(name, "house") {
        Ok(Building::House)
    } else if is_word(name, "capital") {
        Ok(Building::Capital)
    } else {
        Err(false)
    }
}

/// The kind of building that a name stands for, in small or in capital
/// letters. Any other text gives `Err(false)`.
pub fn string_to_building(string: &String) -> (out: Result<Building, bool>)
    ensures
        out == (match spec_building_named(lowercase_of(string@)) {
            Some(building) => Ok::<Building, bool>(building),
            None => Err::<Building, bool>(false),
        }),
{
    let lowered = to_lowercase(string);
    building_named(&lowered)
}

} // verus!
