//! The kinds of building and what each one costs.

use vstd::prelude::*;

verus! {

/// A kind of building.
#[derive(Debug, Hash, PartialEq, Eq, Structural, Clone, Copy)]
pub enum Building {
    Farm,
    Mill,
    Blacksmith,
    Barracks,
    Capital,
    House,
    Hut,
}

/// What is known of a kind of building: its name, a line about it, its price
/// in money, wood and metal, and the room it takes on a tile.
#[derive(Debug, Hash, PartialEq, Eq, Default, Clone)]
pub struct BuildingData {
    pub name: String,
    pub description: String,
    pub cost: i32,
    pub wood: i32,
    pub metal: i32,
    pub space: i32,
}

impl Building {
    /// The name of the kind.
    pub open spec fn spec_name(self) -> Seq<char> {
        match self {
            Building::Farm => "Farm"@,
            Building::Mill => "Mill"@,
            Building::Blacksmith => "Blacksmith"@,
            Building::Barracks => "Barracks"@,
            Building::Capital => "Capital"@,
            Building::House => "House"@,
            Building::Hut => "Hut"@,
        }
    }

    /// The line that describes the kind.
    pub open spec fn spec_description(self) -> Seq<char> {
        match self {
            Building::Farm => "A farm that produces food"@,
            Building::Mill => "A mill that processes wood"@,
            Building::Blacksmith => "A blacksmith that forges metal"@,
            Building::Barracks => "Where your troops are trained"@,
            Building::Capital => "The capital of the faction"@,
            Building::House => "A house that people can live in"@,
            Building::Hut => "A hut that people can live in"@,
        }
    }

    /// The price in money.
    pub open spec fn spec_cost(self) -> int {
        match self {
            Building::Farm => 100,
            Building::Mill => 100,
            Building::Blacksmith => 100,
            Building::Barracks => 300,
            Building::Capital => 0,
            Building::House => 150,
            Building::Hut => 50,
        }
    }

    /// The price in wood.
    pub open spec fn spec_wood(self) -> int {
        match self {
            Building::Farm => 50,
            Building::Mill => 50,
            Building::Blacksmith => 50,
            Building::Barracks => 800,
            Building::Capital => 0,
            Building::House => 300,
            Building::Hut => 100,
        }
    }

    /// The price in metal.
    pub open spec fn spec_metal(self) -> int {
        match self {
            Building::Farm => 0,
            Building::Mill => 0,
            Building::Blacksmith => 0,
            Building::Barracks => 500,
            Building::Capital => 0,
            Building::House => 50,
            Building::Hut => 50,
        }
    }

    /// The room that one building of the kind takes on its tile.
    pub open spec fn spec_space(self) -> int {
        match self {
            Building::Farm => 1,
            Building::Mill => 1,
            Building::Blacksmith => 5,
            Building::Barracks => 10,
            Building::Capital => 100,
            Building::House => 10,
            Building::Hut => 5,
        }
    }

    /// The room that one building of the kind takes on its tile.
    pub fn space(&self) -> (s: i32)
        ensures
            s == self.spec_space(),
    {
        match self {
            Building::Farm => 1,
            Building::Mill => 1,
            Building::Blacksmith => 5,
            Building::Barracks => 10,
            Building::Capital => 100,
            Building::House => 10,
            Building::Hut => 5,
        }
    }

    /// Everything that is known of the kind.
    pub fn data(&self) -> (d: BuildingData)
        ensures
            d.name@ == self.spec_name(),
            d.description@ == self.spec_description(),
            d.cost == self.spec_cost(),
            d.wood == self.spec_wood(),
            d.metal == self.spec_metal(),
            d.space == self.spec_space(),
    {
        let (name, description, cost, wood, metal): (&str, &str, i32, i32, i32) = match self {
            Building::Farm => ("Farm", "A farm that produces food", 100, 50, 0),
            Building::Mill => ("Mill", "A mill that processes wood", 100, 50, 0),
            Building::Blacksmith => ("Blacksmith", "A blacksmith that forges metal", 100, 50, 0),
            Building::Barracks => ("Barracks", "Where your troops are trained", 300, 800, 500),
            Building::Capital => ("Capital", "The capital of the faction", 0, 0, 0),
            Building::House => ("House", "A house that people can live in", 150, 300, 50),
            Building::Hut => ("Hut", "A hut that people can live in", 50, 100, 50),
        };
        BuildingData {
            name: name.to_owned(),
            description: description.to_owned(),
            cost,
            wood,
            metal,
            space: self.space(),
        }
    }
}

} // verus!
