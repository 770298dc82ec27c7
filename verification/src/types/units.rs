//! The kinds of unit and which kinds each one beats.

use vstd::prelude::*;

verus! {

/// A kind of unit.
#[derive(Debug, Hash, PartialEq, Eq, Structural, Clone, Copy)]
pub enum Unit {
    Citizen,
    Soldier,
    Cavalry,
    Ranger,
    Knight,
    Scout,
}

/// What is known of a kind of unit: its name, a line about it, the room one
/// unit takes, and the kinds it beats.
#[derive(Debug, Hash, PartialEq, Eq, Default)]
pub struct UnitData {
    pub name: String,
    pub description: String,
    pub space: i32,
    pub beats: Vec<Unit>,
}

impl Unit {
    /// The name of the kind.
    pub open spec fn spec_name(self) -> Seq<char> {
        match self {
            Unit::Citizen => "Citizen"@,
            Unit::Soldier => "Soldier"@,
            Unit::Cavalry => "Cavalry"@,
            Unit::Ranger => "Ranger"@,
            Unit::Knight => "Knight"@,
            Unit::Scout => "Scout"@,
        }
    }

    /// The line that describes the kind.
    pub open spec fn spec_description(self) -> Seq<char> {
        match self {
            Unit::Citizen => "A normal citizen of the faction"@,
            Unit::Soldier => "A regular soldier"@,
            Unit::Cavalry => "A fast moving cavalry unit"@,
            Unit::Ranger => "A long range unit"@,
            Unit::Knight => "A heavy hitting knight"@,
            Unit::Scout => "A fast moving scout"@,
        }
    }

    /// The kinds that the kind beats, in the order in which they are listed.
    pub open spec fn spec_beats(self) -> Seq<Unit> {
        match self {
            Unit::Citizen => seq![],
            Unit::Soldier => seq![Unit::Citizen],
            Unit::Cavalry => seq![Unit::Soldier],
            Unit::Ranger => seq![Unit::Soldier, Unit::Cavalry],
            Unit::Knight => seq![Unit::Cavalry, Unit::Soldier],
            Unit::Scout => seq![Unit::Citizen],
        }
    }

    /// Everything that is known of the kind. Every unit takes one place.
    pub fn data(&self) -> (d: UnitData)
        ensures
            d.name@ == self.spec_name(),
            d.description@ == self.spec_description(),
            d.space == 1,
            d.beats@ == self.spec_beats(),
    {
        let (name, description): (&str, &str) = match self {
            Unit::Citizen => ("Citizen", "A normal citizen of the faction"),
            Unit::Soldier => ("Soldier", "A regular soldier"),
            Unit::Cavalry => ("Cavalry", "A fast moving cavalry unit"),
            Unit::Ranger => ("Ranger", "A long range unit"),
            Unit::Knight => ("Knight", "A heavy hitting knight"),
            Unit::Scout => ("Scout", "A fast moving scout"),
        };
        let mut beats: Vec<Unit> = Vec::new();
        match self {
            Unit::Citizen => {},
            Unit::Soldier => {
                beats.push(Unit::Citizen);
            },
            Unit::Cavalry => {
                beats.push(Unit::Soldier);
            },
            Unit::Ranger => {
                beats.push(Unit::Soldier);
                beats.push(Unit::Cavalry);
            },
            Unit::Knight => {
                beats.push(Unit::Cavalry);
                beats.push(Unit::Soldier);
            },
            Unit::Scout => {
                beats.push(Unit::Citizen);
            },
        }
        assert(beats@ =~= self.spec_beats());
        UnitData { name: name.to_owned(), description: description.to_owned(), space: 1, beats }
    }
}

} // verus!
