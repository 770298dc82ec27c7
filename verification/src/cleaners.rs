//! Tidying the records of the store: tags in capital letters, no entry twice
//! in a row, and a word on which records are not worth keeping.

use vstd::prelude::*;
use crate::text::{to_uppercase, uppercase_of};
use crate::types::map::{Tile, TileView};
use crate::types::permissions::Permissions;
use crate::types::users::User;

verus! {

/// A list without the entries that repeat the entry before them.
pub open spec fn deduped<T>(items: Seq<T>) -> Seq<T>
    decreases items.len(),
{
    if items.len() <= 1 {
        items
    } else if items[items.len() - 1] == items[items.len() - 2] {
        deduped(items.drop_last())
    } else {
        deduped(items.drop_last()).push(items[items.len() - 1])
    }
}

/// As many copies of an item as the number says.
pub open spec fn copies<T>(item: T, n: nat) -> Seq<T> {
    Seq::new(n, |i: int| item)
}

/// How often an item occurs among the first `n` of a list.
pub open spec fn occurrences<T>(items: Seq<T>, item: T, n: int) -> nat
    decreases n,
{
    if n <= 0 {
        0
    } else {
        occurrences(items, item, n - 1) + (if items[n - 1] == item {
            1nat
        } else {
            0nat
        })
    }
}

/// The permissions in the order of their names: each one as often as the
/// list holds it.
pub open spec fn sorted_by_name(items: Seq<Permissions>) -> Seq<Permissions> {
    let n = items.len() as int;
    copies(Permissions::Build, occurrences(items, Permissions::Build, n)) + copies(
        Permissions::Leader,
        occurrences(items, Permissions::Leader, n),
    ) + copies(Permissions::MoveTroops, occurrences(items, Permissions::MoveTroops, n)) + copies(
        Permissions::NoMoneyCap,
        occurrences(items, Permissions::NoMoneyCap, n),
    ) + copies(Permissions::War, occurrences(items, Permissions::War, n))
}

/// The permissions without those that repeat the one before them.
pub fn dedup_permissions(items: &Vec<Permissions>) -> (out: Vec<Permissions>)
    ensures
        out@ == deduped(items@),
{
    let mut out: Vec<Permissions> = Vec::new();
    let mut k: usize = 0;
    while k < items.len()
        invariant
            0 <= k <= items.len(),
            out@ == deduped(items@.subrange(0, k as int)),
        decreases items.len() - k,
    {
        let ghost head = items@.subrange(0, k + 1);
        assert(head.drop_last() =~= items@.subrange(0, k as int));
        if k == 0 || items[k] != items[k - 1] {
            out.push(items[k]);
        }
        k = k + 1;
    }
    assert(items@.subrange(0, items@.len() as int) =~= items@);
    out
}

/// Puts `n` copies of a permission at the end of a list.
fn push_copies(out: &mut Vec<Permissions>, item: Permissions, n: usize)
    ensures
        final(out)@ == old(out)@ + copies(item, n as nat),
{
    let mut k: usize = 0;
    while k < n
        invariant
            0 <= k <= n,
            out@ == old(out)@ + copies(item, k as nat),
        decreases n - k,
    {
        out.push(item);
        assert(out@ =~= old(out)@ + copies(item, (k + 1) as nat));
        k = k + 1;
    }
}

/// How often a permission occurs in a list.
fn count_permission(items: &Vec<Permissions>, item: Permissions) -> (n: usize)
    ensures
        n == occurrences(items@, item, items@.len() as int),
{
    let mut n: usize = 0;
    let mut k: usize = 0;
    while k < items.len()
        invariant
            0 <= k <= items.len(),
            n == occurrences(items@, item, k as int),
            n <= k,
        decreases items.len() - k,
    {
        if items[k] == item {
            n = n + 1;
        }
        k = k + 1;
    }
    n
}

/// The permissions in the order of their names.
pub fn sort_permissions(items: &Vec<Permissions>) -> (out: Vec<Permissions>)
    ensures
        out@ == sorted_by_name(items@),
{
    let mut out: Vec<Permissions> = Vec::new();
    push_copies(&mut out, Permissions::Build, count_permission(items, Permissions::Build));
    push_copies(&mut out, Permissions::Leader, count_permission(items, Permissions::Leader));
    push_copies(&mut out, Permissions::MoveTroops, count_permission(items, Permissions::MoveTroops));
    push_copies(&mut out, Permissions::NoMoneyCap, count_permission(items, Permissions::NoMoneyCap));
    push_copies(&mut out, Permissions::War, count_permission(items, Permissions::War));
    assert(out@ =~= sorted_by_name(items@));
    out
}

/// The views of the texts of a list.
pub open spec fn texts(items: Seq<String>) -> Seq<Seq<char>> {
    Seq::new(items.len(), |i: int| items[i]@)
}

/// The names without those that repeat the name before them.
pub fn dedup_names(items: &Vec<String>) -> (out: Vec<String>)
    ensures
        texts(out@) == deduped(texts(items@)),
{
    let mut out: Vec<String> = Vec::new();
    let mut k: usize = 0;
    while k < items.len()
        invariant
            0 <= k <= items.len(),
            texts(out@) == deduped(texts(items@).subrange(0, k as int)),
        decreases items.len() - k,
    {
        let ghost head = texts(items@).subrange(0, k + 1);
        let ghost before = texts(out@);
        assert(head.drop_last() =~= texts(items@).subrange(0, k as int));
        if k == 0 || items[k] != items[k - 1] {
            out.push(items[k].clone());
            assert(texts(out@) =~= before.push(items@[k as int]@));
        }
        k = k + 1;
    }
    assert(texts(items@).subrange(0, items@.len() as int) =~= texts(items@));
    out
}

/// The user as the store should hold them: the permissions without those
/// that repeat the one before them and then in the order of their names, and
/// the tag of the faction in capital letters.
pub fn clean_user(user: &User) -> (cleaned: User)
    ensures
        cleaned.uuid@ == user.uuid@,
        cleaned.username@ == user.username@,
        cleaned.discriminator@ == user.discriminator@,
        cleaned.faction@ == uppercase_of(user.faction@),
        cleaned.permissions@ == sorted_by_name(deduped(user.permissions@)),
{
    let unique = dedup_permissions(&user.permissions);
    User {
        uuid: user.uuid.clone(),
        username: user.username.clone(),
        discriminator: user.discriminator.clone(),
        faction: to_uppercase(&user.faction),
        permissions: sort_permissions(&unique),
    }
}

/// True of a tile that is not worth keeping: no faction claims it, or nothing
/// stands on it, or nobody occupies it.
pub open spec fn spec_tile_is_stale(tile: TileView) -> bool {
    ||| tile.faction.len() == 0
    ||| (tile.buildings.len() == 0 && tile.units.len() == 0)
    ||| !tile.occupied
}

/// Whether the tile is not worth keeping in the store.
pub fn tile_is_stale(tile: &Tile) -> (stale: bool)
    ensures
        stale == spec_tile_is_stale(tile@),
{
    tile.faction.as_str().unicode_len() == 0 || (tile.buildings.len() == 0 && tile.units.len() == 0)
        || !tile.occupied
}

/// The tile as the store should hold it, with the tag of its faction in
/// capital letters, and whether it is then worth keeping.
pub fn clean_tile(tile: &Tile) -> (out: (Tile, bool))
    ensures
        out.0@ == (TileView { faction: uppercase_of(tile@.faction), ..tile@ }),
        out.1 == !spec_tile_is_stale(out.0@),
{
    let mut cleaned = tile.duplicate();
    cleaned.faction = to_uppercase(&tile.faction);
    let keep = !tile_is_stale(&cleaned);
    (cleaned, keep)
}

/// Whether a faction with this tag, name and number of members is not worth
/// keeping in the store: it lacks a tag, a name or any member.
pub fn faction_is_stale(tag: &String, name: &String, members: usize) -> (stale: bool)
    ensures
        stale == (tag@.len() == 0 || name@.len() == 0 || members == 0),
{
    tag.as_str().unicode_len() == 0 || name.as_str().unicode_len() == 0 || members == 0
}

} // verus!
