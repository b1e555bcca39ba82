//! The initial game setup: galaxy sizes and the starting parameters.

use vstd::prelude::*;

verus! {

/// How large a galaxy the game is played in.
#[derive(Clone, Copy, Debug, PartialEq, Eq, Structural)]
pub enum Galaxy {
    Tiny,
    Small,
    Medium,
    Large,
    Huge,
    Ludicrous,
}

/// The radius of a galaxy of the given size, in milliunits.
pub open spec fn spec_galaxy_radius(galaxy: Galaxy) -> i64 {
    match galaxy {
        Galaxy::Tiny => 300_000,
        Galaxy::Small => 900_000,
        Galaxy::Medium => 1_500_000,
        Galaxy::Large => 2_200_000,
        Galaxy::Huge => 3_500_000,
        Galaxy::Ludicrous => 5_000_000,
    }
}

/// The radius of a galaxy of the given size, in milliunits.
pub fn galaxy_size_to_radius(galaxy: &Galaxy) -> (r: i64)
    ensures
        r == spec_galaxy_radius(*galaxy),
{
    match galaxy {
        Galaxy::Tiny => 300_000,
        Galaxy::Small => 900_000,
        Galaxy::Medium => 1_500_000,
        Galaxy::Large => 2_200_000,
        Galaxy::Huge => 3_500_000,
        Galaxy::Ludicrous => 5_000_000,
    }
}

/// What a new game starts with.
#[derive(Clone, Copy, Debug)]
pub struct InitGameSetup {
    pub no_of_planets: u32,
    pub starting_resources: u32,
    pub epoch_seconds: u32,
    pub galaxy_size: Galaxy,
}

impl Default for InitGameSetup {
    /// The stock setup a new game is configured with.
    fn default() -> (r: Self)
        ensures
            r.no_of_planets == 50,
            r.starting_resources == 500,
            r.epoch_seconds == 3,
            r.galaxy_size == Galaxy::Tiny,
    {
        InitGameSetup {
            no_of_planets: 50,
            starting_resources: 500,
            epoch_seconds: 3,
            galaxy_size: Galaxy::Tiny,
        }
    }
}

} // verus!
