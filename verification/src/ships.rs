//! Ship kinds, their stock speeds, and the fleet counters shown in the UI.

use vstd::prelude::*;

verus! {

/// Marks any ship.
#[derive(Clone, Copy, Debug)]
pub struct Ship;

/// Marks a fighter.
#[derive(Clone, Copy, Debug)]
pub struct Fighter;

/// Marks a trader.
#[derive(Clone, Copy, Debug)]
pub struct Trader;

/// The kinds of ship that can be spawned.
#[derive(Clone, Copy, Debug, PartialEq, Eq, Structural)]
pub enum ShipType {
    Trade,
    Fighter,
}

/// The stock speed a ship of this kind is spawned with, in milliunits per
/// second.
pub open spec fn spec_ship_speed(t: ShipType) -> u64 {
    match t {
        ShipType::Fighter => 35_000,
        ShipType::Trade => 12_000,
    }
}

/// The stock speed a ship of this kind is spawned with, in milliunits per
/// second.
pub fn ship_speed(t: &ShipType) -> (speed: u64)
    ensures
        speed == spec_ship_speed(*t),
{
    match t {
        ShipType::Fighter => 35_000,
        ShipType::Trade => 12_000,
    }
}

/// How many of the listed ships are fighters.
pub open spec fn fighters_of(kinds: Seq<ShipType>) -> int
    decreases kinds.len(),
{
    if kinds.len() == 0 {
        0
    } else {
        fighters_of(kinds.drop_last()) + if kinds.last() is Fighter {
            1int
        } else {
            0
        }
    }
}

/// How many of the listed ships are traders.
pub open spec fn traders_of(kinds: Seq<ShipType>) -> int
    decreases kinds.len(),
{
    if kinds.len() == 0 {
        0
    } else {
        traders_of(kinds.drop_last()) + if kinds.last() is Trade {
            1int
        } else {
            0
        }
    }
}

/// Counts the fighters now deployed in space.
pub fn count_fighters_deployed(kinds: &Vec<ShipType>) -> (r: usize)
    ensures
        r == fighters_of(kinds@),
{
    let n = kinds.len();
    let mut i: usize = 0;
    let mut count: usize = 0;
    while i < n
        invariant
            i <= n == kinds@.len(),
            count == fighters_of(kinds@.subrange(0, i as int)),
            count <= i,
        decreases n - i,
    {
        proof {
            assert(kinds@.subrange(0, i + 1).drop_last() =~= kinds@.subrange(0, i as int));
        }
        match kinds[i] {
            ShipType::Fighter => {
                count = count + 1;
            },
            _ => {},
        }
        i = i + 1;
    }
    proof {
        assert(kinds@.subrange(0, n as int) =~= kinds@);
    }
    count
}

/// Counts the traders now in space.
pub fn count_traders(kinds: &Vec<ShipType>) -> (r: usize)
    ensures
        r == traders_of(kinds@),
{
    let n = kinds.len();
    let mut i: usize = 0;
    let mut count: usize = 0;
    while i < n
        invariant
            i <= n == kinds@.len(),
            count == traders_of(kinds@.subrange(0, i as int)),
            count <= i,
        decreases n - i,
    {
        proof {
            assert(kinds@.subrange(0, i + 1).drop_last() =~= kinds@.subrange(0, i as int));
        }
        match kinds[i] {
            ShipType::Trade => {
                count = count + 1;
            },
            _ => {},
        }
        i = i + 1;
    }
    proof {
        assert(kinds@.subrange(0, n as int) =~= kinds@);
    }
    count
}

} // verus!
