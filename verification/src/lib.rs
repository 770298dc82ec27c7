//! Map rendering for a tile world: a window of an unbounded grid of tiles,
//! keyed by integer coordinates, is drawn tile by tile and assembled into one
//! raster image.
//!
//! A map is made in these steps:
//!
//! - `builder` gathers the window from a store of tiles, and puts a blank
//!   tile wherever the store holds none (`window`, `tiles`).
//! - `render` draws each tile: a background whose colours the caller gives
//!   for the points that `geometry` names, a frame on the centre tile, and a
//!   motif in the colour of the tile's occupancy (`color`, `raster`).
//! - `scheduler` runs one job for each tile and gathers the pictures in a
//!   `signal`.
//! - `compose` puts the pictures together and turns the map the right way up.
//! - `encode` writes the map as a PNG stream.
//!
//! The records of the game are in `types`, `map` and `config`; what the game
//! decides without its store is in `rules`, `counts` and `cleaners`; and
//! `conversions`, `sizes` and `text` turn values into other shapes.

pub mod builder;
pub mod cleaners;
pub mod color;
pub mod compose;
pub mod config;
pub mod conversions;
pub mod counts;
pub mod encode;
pub mod error;
pub mod geometry;
pub mod map;
pub mod raster;
pub mod render;
pub mod rules;
pub mod scheduler;
pub mod signal;
pub mod sizes;
pub mod text;
pub mod tiles;
pub mod types;
pub mod window;
