//! The records of the game world: tiles, what stands on them, and who plays.

pub mod buildings;
pub mod map;
pub mod permissions;
pub mod units;
pub mod users;
