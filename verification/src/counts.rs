//! What stands on a tile: a list that gives a count for each kind of
//! building, and one for each kind of unit. Where a kind is listed more than
//! once, its first entry counts.

use vstd::prelude::*;
use crate::types::buildings::Building;
use crate::types::units::Unit;

verus! {

/// The index of the first entry for a kind from index `from` on, or the
/// length of the list where there is none.
pub open spec fn first_entry<K>(counts: Seq<(K, u32)>, kind: K, from: int) -> int
    decreases counts.len() - from,
{
    if from < 0 || from >= counts.len() {
        counts.len() as int
    } else if counts[from].0 == kind {
        from
    } else {
        first_entry(counts, kind, from + 1)
    }
}

/// True where a kind is listed.
pub open spec fn is_listed<K>(counts: Seq<(K, u32)>, kind: K) -> bool {
    first_entry(counts, kind, 0) < counts.len()
}

/// The count of a kind, zero where the kind is not listed.
pub open spec fn count_of<K>(counts: Seq<(K, u32)>, kind: K) -> u32 {
    if is_listed(counts, kind) {
        counts[first_entry(counts, kind, 0)].1
    } else {
        0
    }
}

/// The list after the count of a kind was raised by `amount`. A kind that
/// was not listed is listed at the end.
pub open spec fn raised<K>(counts: Seq<(K, u32)>, kind: K, amount: u32) -> Seq<(K, u32)> {
    let at = first_entry(counts, kind, 0);
    if at < counts.len() {
        counts.update(at, (kind, (counts[at].1 + amount) as u32))
    } else {
        counts.push((kind, amount))
    }
}

/// The list after the count of a listed kind was lowered by `amount`. A
/// kind of which none is left is no longer listed.
pub open spec fn lowered<K>(counts: Seq<(K, u32)>, kind: K, amount: u32) -> Seq<(K, u32)> {
    let at = first_entry(counts, kind, 0);
    if counts[at].1 == amount {
        counts.remove(at)
    } else {
        counts.update(at, (kind, (counts[at].1 - amount) as u32))
    }
}

/// The first entry for a kind lies within the list or at its end, no entry
/// before it is for the kind, and where it lies within, it is for the kind.
pub proof fn lemma_first_entry<K>(counts: Seq<(K, u32)>, kind: K, from: int)
    requires
        0 <= from <= counts.len(),
    ensures
        from <= first_entry(counts, kind, from) <= counts.len(),
        forall|j: int| from <= j < first_entry(counts, kind, from) ==> (#[trigger] counts[j]).0 != kind,
        first_entry(counts, kind, from) < counts.len() ==> counts[first_entry(counts, kind, from)].0 == kind,
    decreases counts.len() - from,
{
    if from < counts.len() && counts[from].0 != kind {
        lemma_first_entry(counts, kind, from + 1);
    }
}

/// Where no entry from `from` up to `at` is for the kind, and the entry at
/// `at` is, that is the first entry for the kind.
pub proof fn lemma_first_entry_is<K>(counts: Seq<(K, u32)>, kind: K, from: int, at: int)
    requires
        0 <= from <= at <= counts.len(),
        forall|j: int| from <= j < at ==> (#[trigger] counts[j]).0 != kind,
        at < counts.len() ==> counts[at].0 == kind,
    ensures
        first_entry(counts, kind, from) == at,
    decreases at - from,
{
    if from < at {
        lemma_first_entry_is(counts, kind, from + 1, at);
    }
}

/// Raising the count of a kind raises it by the amount, where the sum is one
/// that the machine can hold, and leaves the count of every other kind.
pub proof fn lemma_raised_counts<K>(counts: Seq<(K, u32)>, kind: K, amount: u32, other: K)
    requires
        count_of(counts, kind) + amount <= u32::MAX,
    ensures
        count_of(raised(counts, kind, amount), kind) == count_of(counts, kind) + amount,
        other != kind ==> count_of(raised(counts, kind, amount), other) == count_of(counts, other),
{
    let at = first_entry(counts, kind, 0);
    let after = raised(counts, kind, amount);
    lemma_first_entry(counts, kind, 0);
    lemma_first_entry_is(after, kind, 0, at);
    if other != kind {
        let there = first_entry(counts, other, 0);
        lemma_first_entry(counts, other, 0);
        lemma_first_entry_is(after, other, 0, if there < counts.len() {
            there
        } else {
            after.len() as int
        });
    }
}

/// Lowering the count of a kind leaves the count of every other kind.
pub proof fn lemma_lowered_counts<K>(counts: Seq<(K, u32)>, kind: K, amount: u32, other: K)
    requires
        is_listed(counts, kind),
        amount <= count_of(counts, kind),
        other != kind,
    ensures
        count_of(lowered(counts, kind, amount), other) == count_of(counts, other),
{
    let at = first_entry(counts, kind, 0);
    let after = lowered(counts, kind, amount);
    let there = first_entry(counts, other, 0);
    lemma_first_entry(counts, kind, 0);
    lemma_first_entry(counts, other, 0);
    if counts[at].1 == amount {
        if there < at {
            lemma_first_entry_is(after, other, 0, there);
        } else if there < counts.len() {
            lemma_first_entry_is(after, other, 0, there - 1);
        } else {
            lemma_first_entry_is(after, other, 0, after.len() as int);
        }
    } else {
        lemma_first_entry_is(after, other, 0, if there < counts.len() {
            there
        } else {
            after.len() as int
        });
    }
}

/// Where the first entry for a kind of building stands.
fn find_building(buildings: &Vec<(Building, u32)>, kind: Building) -> (at: usize)
    ensures
        at == first_entry(buildings@, kind, 0),
        at <= buildings@.len(),
{
    let mut k: usize = 0;
    while k < buildings.len()
        invariant
            0 <= k <= buildings.len(),
            first_entry(buildings@, kind, 0) == first_entry(buildings@, kind, k as int),
        decreases buildings.len() - k,
    {
        if buildings[k].0 == kind {
            return k;
        }
        k = k + 1;
    }
    k
}

/// Where the first entry for a kind of unit stands.
fn find_units(units: &Vec<(Unit, u32)>, kind: Unit) -> (at: usize)
    ensures
        at == first_entry(units@, kind, 0),
        at <= units@.len(),
{
    let mut k: usize = 0;
    while k < units.len()
        invariant
            0 <= k <= units.len(),
            first_entry(units@, kind, 0) == first_entry(units@, kind, k as int),
        decreases units.len() - k,
    {
        if units[k].0 == kind {
            return k;
        }
        k = k + 1;
    }
    k
}

/// The number of buildings of a kind among the buildings of a tile.
pub fn building_count(buildings: &Vec<(Building, u32)>, kind: Building) -> (n: u32)
    ensures
        n == count_of(buildings@, kind),
{
    let at = find_building(buildings, kind);
    if at < buildings.len() {
        buildings[at].1
    } else {
        0
    }
}

/// The number of units of a kind among the units of a tile.
pub fn unit_count(units: &Vec<(Unit, u32)>, kind: Unit) -> (n: u32)
    ensures
        n == count_of(units@, kind),
{
    let at = find_units(units, kind);
    if at < units.len() {
        units[at].1
    } else {
        0
    }
}

/// Adds `amount` buildings of a kind to the buildings of a tile, and says
/// whether it could: it cannot where the count would grow beyond what the
/// machine can hold, and then it changes nothing.
pub fn add_buildings(buildings: &mut Vec<(Building, u32)>, kind: Building, amount: u32) -> (done: bool)
    ensures
        done == (count_of(old(buildings)@, kind) + amount <= u32::MAX),
        done ==> final(buildings)@ == raised(old(buildings)@, kind, amount),
        !done ==> final(buildings)@ == old(buildings)@,
{
    let at = find_building(buildings, kind);
    if at < buildings.len() {
        match buildings[at].1.checked_add(amount) {
            Some(sum) => {
                buildings[at] = (kind, sum);
                true
            },
            None => false,
        }
    } else {
        buildings.push((kind, amount));
        true
    }
}

/// Adds `amount` units of a kind to the units of a tile, and says whether it
/// could: it cannot where the count would grow beyond what the machine can
/// hold, and then it changes nothing.
pub fn add_units(units: &mut Vec<(Unit, u32)>, kind: Unit, amount: u32) -> (done: bool)
    ensures
        done == (count_of(old(units)@, kind) + amount <= u32::MAX),
        done ==> final(units)@ == raised(old(units)@, kind, amount),
        !done ==> final(units)@ == old(units)@,
{
    let at = find_units(units, kind);
    if at < units.len() {
        match units[at].1.checked_add(amount) {
            Some(sum) => {
                units[at] = (kind, sum);
                true
            },
            None => false,
        }
    } else {
        units.push((kind, amount));
        true
    }
}

/// Takes `amount` units of a kind from the units of a tile, and says whether
/// it could: it cannot where the kind is not listed or the tile has fewer of
/// it, and then it changes nothing. A kind of which none is left is no
/// longer listed.
pub fn take_units(units: &mut Vec<(Unit, u32)>, kind: Unit, amount: u32) -> (done: bool)
    ensures
        done == (is_listed(old(units)@, kind) && amount <= count_of(old(units)@, kind)),
        done ==> final(units)@ == lowered(old(units)@, kind, amount),
        !done ==> final(units)@ == old(units)@,
{
    let at = find_units(units, kind);
    if at >= units.len() {
        return false;
    }
    let have = units[at].1;
    if have < amount {
        false
    } else if have == amount {
        units.remove(at);
        true
    } else {
        units[at] = (kind, have - amount);
        true
    }
}

} // verus!
