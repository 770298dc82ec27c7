//! What the program is started with.

use vstd::prelude::*;

verus! {

/// The settings of the program: the token it signs in with, and the seed of
/// the texture of the map. The seed is read once and stays for the life of
/// the process, so that a place looks the same in every map of it.
#[derive(Debug, Clone)]
pub struct Config {
    pub discord_token: String,
    pub perlin_seed: u32,
}

impl Config {
    /// The settings with the given token and seed.
    pub fn new(discord_token: String, perlin_seed: u32) -> (config: Config)
        ensures
            config.discord_token@ == discord_token@,
            config.perlin_seed == perlin_seed,
    {
        Config { discord_token, perlin_seed }
    }
}

} // verus!
