//! Where the finished tiles of one rendering pass are gathered: a map from the
//! coordinates of a tile to its picture, and a count of the tiles done.

use vstd::prelude::*;
use crate::color::Rgb;
use crate::geometry::TILE_SIZE;
use crate::raster::{grid_of, Raster};
use crate::render::tile_sized;

verus! {

/// `dashmap::DashMap`, a map that threads can share. Nothing of its inside is
/// known here.
#[verifier::external_type_specification]
#[verifier::external_body]
#[verifier::reject_recursive_types(K)]
#[verifier::reject_recursive_types(V)]
#[verifier::reject_recursive_types(S)]
pub struct ExDashMap<K, V, S>(dashmap::DashMap<K, V, S>);

/// `atomic_counter::RelaxedCounter`, a counter that threads can share.
/// Nothing of its inside is known here.
#[verifier::external_type_specification]
#[verifier::external_body]
pub struct ExRelaxedCounter(atomic_counter::RelaxedCounter);

/// A map from the coordinates of a tile to a buffer of samples.
pub type TileMap = dashmap::DashMap<(i32, i32), Vec<u8>>;

/// The entries of a map of sample buffers: the samples stored under each key.
pub uninterp spec fn stored(m: dashmap::DashMap<(i32, i32), Vec<u8>>) -> Map<(i32, i32), Seq<u8>>;

/// The entries of a map that holds nothing.
pub open spec fn no_entries() -> Map<(i32, i32), Seq<u8>> {
    Map::empty()
}

/// The number that a counter stands at.
pub uninterp spec fn counted(c: atomic_counter::RelaxedCounter) -> usize;

/// Calls `DashMap::new`, which makes a map without entries.
#[verifier::external_body]
fn map_new() -> (made: TileMap)
    ensures
        stored(made) == no_entries(),
{
    dashmap::DashMap::new()
}

/// Calls `DashMap::contains_key`, which says whether the map holds an entry
/// for the key.
#[verifier::external_body]
fn map_contains(m: &TileMap, key: (i32, i32)) -> (held: bool)
    ensures
        held == stored(*m).contains_key(key),
{
    m.contains_key(&key)
}

/// Calls `DashMap::insert`, which stores the value under the key and drops
/// what was stored under it before.
#[verifier::external_body]
fn map_insert(m: &mut TileMap, key: (i32, i32), value: Vec<u8>)
    ensures
        stored(*final(m)) == stored(*old(m)).insert(key, value@),
    no_unwind
{
    m.insert(key, value);
}

/// Calls `DashMap::len`, which counts the entries.
#[verifier::external_body]
fn map_len(m: &TileMap) -> (n: usize)
    ensures
        stored(*m).dom().finite() ==> n == stored(*m).dom().len(),
{
    m.len()
}

/// Calls `DashMap::get` and copies the value that it finds.
#[verifier::external_body]
fn map_get(m: &TileMap, key: (i32, i32)) -> (found: Option<Vec<u8>>)
    ensures
        found is Some <==> stored(*m).contains_key(key),
        found matches Some(value) ==> value@ == stored(*m)[key],
{
    m.get(&key).map(|entry| entry.value().clone())
}

/// Calls `RelaxedCounter::new`, which makes a counter that stands at the given
/// number.
#[verifier::external_body]
fn counter_new(start: usize) -> (c: atomic_counter::RelaxedCounter)
    ensures
        counted(c) == start,
{
    atomic_counter::RelaxedCounter::new(start)
}

/// Calls `AtomicCounter::inc`, which adds one to the counter and wraps round
/// to zero after the largest number.
#[verifier::external_body]
fn counter_inc(c: &mut atomic_counter::RelaxedCounter)
    ensures
        counted(*final(c)) == (if counted(*old(c)) == usize::MAX {
            0usize
        } else {
            (counted(*old(c)) + 1) as usize
        }),
    no_unwind
{
    atomic_counter::AtomicCounter::inc(c);
}

/// Calls `AtomicCounter::get`, which reads the counter.
#[verifier::external_body]
fn counter_get(c: &atomic_counter::RelaxedCounter) -> (n: usize)
    ensures
        n == counted(*c),
{
    atomic_counter::AtomicCounter::get(c)
}

/// The finished tiles of one rendering pass. Pictures are only ever added:
/// none is taken out or changed.
pub struct CompletionSignal {
    tiles: TileMap,
    completed: atomic_counter::RelaxedCounter,
}

impl View for CompletionSignal {
    type V = Map<(i32, i32), Seq<Seq<Rgb>>>;

    /// The picture gathered for each pair of coordinates.
    closed spec fn view(&self) -> Map<(i32, i32), Seq<Seq<Rgb>>> {
        Map::new(
            |key: (i32, i32)| stored(self.tiles).contains_key(key),
            |key: (i32, i32)| grid_of(TILE_SIZE as nat, TILE_SIZE as nat, stored(self.tiles)[key]),
        )
    }
}

impl CompletionSignal {
    #[verifier::type_invariant]
    spec fn well_formed(&self) -> bool {
        &&& stored(self.tiles).dom().finite()
        &&& forall|key: (i32, i32)|
            stored(self.tiles).contains_key(key) ==> (#[trigger] stored(self.tiles)[key]).len() == 3 * TILE_SIZE
                * TILE_SIZE
    }

    /// The number of tiles reported as done.
    pub closed spec fn count(&self) -> usize {
        counted(self.completed)
    }

    /// A signal with no picture and a count of zero.
    pub fn new() -> (signal: CompletionSignal)
        ensures
            signal@ == Map::<(i32, i32), Seq<Seq<Rgb>>>::empty(),
            signal.count() == 0,
    {
        let signal = CompletionSignal { tiles: map_new(), completed: counter_new(0) };
        assert(signal@ =~= Map::<(i32, i32), Seq<Seq<Rgb>>>::empty());
        signal
    }

    /// Stores the picture of the tile at the given coordinates and counts one
    /// more tile as done. A picture that has not the size of a tile is turned
    /// away, and so is one for coordinates that have a picture: no picture is
    /// ever taken out or changed.
    pub fn record(&mut self, x: i32, y: i32, img: Raster) -> (accepted: bool)
        ensures
            accepted == (tile_sized(img) && !old(self)@.contains_key((x, y))),
            accepted ==> final(self)@ == old(self)@.insert((x, y), img@),
            forall|key: (i32, i32)|
                old(self)@.contains_key(key) ==> final(self)@.contains_key(key) && #[trigger] final(self)@[key]
                    == old(self)@[key],
            accepted ==> final(self).count() == (if old(self).count() == usize::MAX {
                0usize
            } else {
                (old(self).count() + 1) as usize
            }),
            !accepted ==> final(self)@ == old(self)@ && final(self).count() == old(self).count(),
    {
        proof {
            use_type_invariant(&*self);
        }
        if img.width() != TILE_SIZE as u32 || img.height() != TILE_SIZE as u32 {
            return false;
        }
        if map_contains(&self.tiles, (x, y)) {
            return false;
        }
        let ghost grid = img@;
        let data = img.into_raw();
        map_insert(&mut self.tiles, (x, y), data);
        counter_inc(&mut self.completed);
        assert(self@ =~= old(self)@.insert((x, y), grid));
        true
    }

    /// The number of tiles reported as done.
    pub fn completed(&self) -> (n: usize)
        ensures
            n == self.count(),
    {
        counter_get(&self.completed)
    }

    /// The number of pictures gathered.
    pub fn len(&self) -> (n: usize)
        ensures
            self@.dom().finite(),
            n == self@.dom().len(),
    {
        proof {
            use_type_invariant(self);
            assert(self@.dom() =~= stored(self.tiles).dom());
        }
        map_len(&self.tiles)
    }

    /// The picture gathered for the tile at the given coordinates, if there is
    /// one.
    pub fn get(&self, x: i32, y: i32) -> (found: Option<Raster>)
        ensures
            found is Some <==> self@.contains_key((x, y)),
            found matches Some(img) ==> tile_sized(img) && img@ == self@[(x, y)],
    {
        proof {
            use_type_invariant(self);
        }
        match map_get(&self.tiles, (x, y)) {
            Some(data) => {
                let made = Raster::from_raw(TILE_SIZE as u32, TILE_SIZE as u32, data);
                assert(3 * (TILE_SIZE as u32) * (TILE_SIZE as u32) == 3 * TILE_SIZE * TILE_SIZE);
                Some(made.unwrap())
            },
            None => None,
        }
    }
}

} // verus!
