//! Planets: their kinds, their stored fighters, and the production and
//! capture rules.

use vstd::prelude::*;

use crate::geom::Vec3Fix;
use crate::players::Ownership;
use crate::players::PlayerId;

verus! {

/// The kinds of planet, from smallest to largest.
#[derive(Clone, Copy, Debug, PartialEq, Eq, Structural)]
pub enum PlanetType {
    Outpost,
    Watch,
    Base,
    Colony,
    Capital,
}

/// The radius of a planet of the given kind, in milliunits.
pub open spec fn spec_planet_radius(pt: PlanetType) -> i64 {
    match pt {
        PlanetType::Outpost => 2000,
        PlanetType::Watch => 3000,
        PlanetType::Base => 5000,
        PlanetType::Colony => 8000,
        PlanetType::Capital => 12000,
    }
}

/// The radius of a planet of the given kind, in milliunits.
pub fn planet_type_to_radius(pt: &PlanetType) -> (r: i64)
    ensures
        r == spec_planet_radius(*pt),
{
    match pt {
        PlanetType::Outpost => 2000,
        PlanetType::Watch => 3000,
        PlanetType::Base => 5000,
        PlanetType::Colony => 8000,
        PlanetType::Capital => 12000,
    }
}

/// A planet's mutable state: how many fighters it has stored, and its kind.
#[derive(Clone, Copy, Debug)]
pub struct Planet {
    pub fighters: u32,
    pub planet_type: PlanetType,
}

/// A planet as the hit tests see it: its entity id, kind and position.
#[derive(Clone, Copy, Debug)]
pub struct PlanetAt {
    pub id: u64,
    pub planet_type: PlanetType,
    pub pos: Vec3Fix,
}

/// What one production tick makes of one planet: an owned planet stores one
/// more fighter; an unowned one is left alone.
pub open spec fn spec_tick(e: (Planet, Ownership)) -> (Planet, Ownership) {
    if e.1.0 is Some {
        (Planet { fighters: (e.0.fighters + 1) as u32, ..e.0 }, e.1)
    } else {
        e
    }
}

/// One production tick: every owned planet stores one more fighter;
/// unowned planets are left alone.
pub fn production_tick(planets: &mut Vec<(Planet, Ownership)>)
    requires
        forall|i: int|
            0 <= i < old(planets)@.len() && old(planets)@[i].1.0 is Some
                ==> old(planets)@[i].0.fighters < u32::MAX,
    ensures
        final(planets)@.len() == old(planets)@.len(),
        forall|i: int| 0 <= i < final(planets)@.len() ==> #[trigger] final(planets)@[i]
            == spec_tick(old(planets)@[i]),
{
    let n = planets.len();
    let mut i: usize = 0;
    while i < n
        invariant
            n == planets@.len() == old(planets)@.len(),
            i <= n,
            forall|k: int|
                0 <= k < n && old(planets)@[k].1.0 is Some
                    ==> old(planets)@[k].0.fighters < u32::MAX,
            forall|k: int| 0 <= k < i ==> #[trigger] planets@[k] == spec_tick(old(planets)@[k]),
            forall|k: int| i <= k < n ==> #[trigger] planets@[k] == old(planets)@[k],
        decreases n - i,
    {
        let owned = planets[i].1.0.is_some();
        if owned {
            let f = planets[i].0.fighters;
            let pt = planets[i].0.planet_type;
            let o = planets[i].1;
            planets.set(i, (Planet { fighters: f + 1, planet_type: pt }, o));
        }
        i = i + 1;
    }
}

/// What became of a fighter that touched a planet.
#[derive(Clone, Copy, Debug, PartialEq, Eq, Structural)]
pub enum ArrivalOutcome {
    /// The fighter was not bound for this planet: nothing happens.
    Ignored,
    /// The fighter lands on a friendly planet and is stored there.
    Stored,
    /// The fighter takes an undefended planet for this player.
    Captured(PlayerId),
    /// A defending fighter is spent to repel it.
    Defended,
}

/// True when the destination is the planet with this id.
pub open spec fn heading_for(dest: crate::movement::DestinationEnum, planet_id: u64) -> bool {
    dest matches crate::movement::DestinationEnum::Planet { planet, .. } && planet == planet_id
}

/// A fighter collides with a planet. If the fighter was bound for this very
/// planet it is absorbed: stored when the owners match; otherwise it captures
/// the planet when no fighters defend it, or trades itself for one defender.
/// On any outcome but `Ignored` the caller despawns the ship; on `Captured`
/// it hands the planet to the returned player.
pub fn fighter_enters_planet(
    planet_id: u64,
    planet: &mut Planet,
    planet_owner: &Ownership,
    ship_dest: &crate::movement::DestinationEnum,
    ship_owner: &Ownership,
) -> (r: ArrivalOutcome)
    requires
        heading_for(*ship_dest, planet_id) && ship_owner.0 != planet_owner.0
            && old(planet).fighters == 0 ==> ship_owner.0 is Some,
        heading_for(*ship_dest, planet_id) && ship_owner.0 == planet_owner.0
            ==> old(planet).fighters < u32::MAX,
    ensures
        !heading_for(*ship_dest, planet_id)
            ==> r == ArrivalOutcome::Ignored && *final(planet) == *old(planet),
        heading_for(*ship_dest, planet_id) && ship_owner.0 == planet_owner.0 ==> {
            &&& r == ArrivalOutcome::Stored
            &&& final(planet).fighters == old(planet).fighters + 1
        },
        heading_for(*ship_dest, planet_id) && ship_owner.0 != planet_owner.0
            && old(planet).fighters == 0 ==> {
            &&& r == ArrivalOutcome::Captured(ship_owner.0->Some_0)
            &&& *final(planet) == *old(planet)
        },
        heading_for(*ship_dest, planet_id) && ship_owner.0 != planet_owner.0
            && old(planet).fighters > 0 ==> {
            &&& r == ArrivalOutcome::Defended
            &&& final(planet).fighters == old(planet).fighters - 1
        },
        final(planet).planet_type == old(planet).planet_type,
{
    let bound_here = match ship_dest {
        crate::movement::DestinationEnum::Planet { planet: p, .. } => *p == planet_id,
        _ => false,
    };
    if !bound_here {
        return ArrivalOutcome::Ignored;
    }
    if ship_owner.0 == planet_owner.0 {
        planet.fighters = planet.fighters + 1;
        ArrivalOutcome::Stored
    } else {
        if planet.fighters == 0 {
            let new_owner = match ship_owner.0 {
                Some(id) => id,
                None => 0,
            };
            ArrivalOutcome::Captured(new_owner)
        } else {
            planet.fighters = planet.fighters - 1;
            ArrivalOutcome::Defended
        }
    }
}

/// Applies a capture: the planet now belongs to the new owner.
pub fn take_planet_ownership(planet_owner: &mut Ownership, new_owner: PlayerId)
    ensures
        final(planet_owner).0 == Some(new_owner),
{
    planet_owner.0 = Some(new_owner);
}

/// The sum of the fighters stored on a sequence of planets.
pub open spec fn stored_sum(ps: Seq<Planet>) -> int
    decreases ps.len(),
{
    if ps.len() == 0 {
        0
    } else {
        stored_sum(ps.drop_last()) + ps.last().fighters
    }
}

/// Counts the fighters stored across all planets, saturating at `u32::MAX`
/// for the display counter.
pub fn count_fighters_stored(planets: &Vec<Planet>) -> (r: u32)
    ensures
        stored_sum(planets@) <= u32::MAX ==> r == stored_sum(planets@),
        stored_sum(planets@) > u32::MAX ==> r == u32::MAX,
{
    let n = planets.len();
    let mut i: usize = 0;
    let mut total: u64 = 0;
    while i < n
        invariant
            i <= n == planets@.len(),
            total <= 2 * (u32::MAX as int),
            total <= u32::MAX ==> total == stored_sum(planets@.subrange(0, i as int)),
            total > u32::MAX ==> stored_sum(planets@.subrange(0, i as int)) > u32::MAX,
        decreases n - i,
    {
        proof {
            assert(planets@.subrange(0, i + 1).drop_last() =~= planets@.subrange(0, i as int));
        }
        if total <= u32::MAX as u64 {
            total = total + planets[i].fighters as u64;
        }
        i = i + 1;
    }
    proof {
        assert(planets@.subrange(0, n as int) =~= planets@);
    }
    if total > u32::MAX as u64 {
        u32::MAX
    } else {
        total as u32
    }
}


/// A planet selected for deployment: its stored fighters, its owner, and
/// where it stands.
#[derive(Clone, Copy, Debug)]
pub struct SelectedPlanet {
    pub planet: Planet,
    pub owner: Ownership,
    pub pos: Vec3Fix,
}

/// One batch of fighters to put into space: how many, from where, for whom,
/// and where they are bound.
#[derive(Clone, Copy, Debug)]
pub struct DeployOrder {
    pub planet_pos: Vec3Fix,
    pub owner: PlayerId,
    pub count: u32,
    pub dest: crate::movement::DestinationEnum,
}

/// The deployment orders a right click raises: one per selected planet that
/// is owned, each for all the fighters that planet had stored.
pub open spec fn spec_deploy_orders(
    sel: Seq<SelectedPlanet>,
    dest: crate::movement::DestinationEnum,
) -> Seq<DeployOrder>
    decreases sel.len(),
{
    if sel.len() == 0 {
        Seq::empty()
    } else {
        let pre = spec_deploy_orders(sel.drop_last(), dest);
        match sel.last().owner.0 {
            Some(owner) => pre.push(
                DeployOrder {
                    planet_pos: sel.last().pos,
                    owner,
                    count: sel.last().planet.fighters,
                    dest,
                },
            ),
            None => pre,
        }
    }
}

/// What one deployment makes of one selected planet: an owned planet sends
/// out everything it stored; an unowned one is left alone.
pub open spec fn spec_deployed(s: SelectedPlanet) -> SelectedPlanet {
    if s.owner.0 is Some {
        SelectedPlanet {
            planet: Planet { fighters: 0, ..s.planet },
            ..s
        }
    } else {
        s
    }
}

/// A right click deploys the fighters stored on every selected, owned
/// planet. The click picks the destination exactly as a movement order does:
/// the first planet it fell on, or the bare point in space. Each owned
/// planet is emptied and contributes one order; the caller spawns the ships
/// and, for a space destination, registers them as one fleet under it (see
/// `register_deployed_fleet`).
pub fn deploy_fighters(
    right_clicked: bool,
    mouse: crate::geom::Vec2Fix,
    all_planets: &Vec<PlanetAt>,
    selected: &mut Vec<SelectedPlanet>,
) -> (orders: Vec<DeployOrder>)
    requires
        mouse.in_world(),
        forall|i: int| 0 <= i < all_planets@.len() ==> (#[trigger] all_planets@[i]).pos.in_world(),
    ensures
        final(selected)@.len() == old(selected)@.len(),
        !right_clicked ==> final(selected)@ == old(selected)@ && orders@ =~= Seq::<
            DeployOrder,
        >::empty(),
        right_clicked ==> {
            let dest = crate::movement::click_order(all_planets@, mouse);
            &&& forall|i: int| 0 <= i < final(selected)@.len()
                ==> #[trigger] final(selected)@[i] == spec_deployed(old(selected)@[i])
            &&& orders@ == spec_deploy_orders(old(selected)@, dest)
        },
{
    let mut orders: Vec<DeployOrder> = Vec::new();
    if !right_clicked {
        return orders;
    }
    let planet_dest = crate::layers::vec2_to_vec3(mouse, crate::layers::Layers::Planets);
    let ship_dest = crate::layers::vec2_to_vec3(mouse, crate::layers::Layers::Ships);
    let dest = match crate::movement::find_planet(all_planets, planet_dest) {
        Some(e) => crate::movement::DestinationEnum::Planet { planet: e, loc: ship_dest },
        None => crate::movement::DestinationEnum::Space(ship_dest),
    };
    let n = selected.len();
    let mut i: usize = 0;
    while i < n
        invariant
            i <= n == selected@.len() == old(selected)@.len(),
            dest == crate::movement::click_order(all_planets@, mouse),
            orders@ == spec_deploy_orders(old(selected)@.subrange(0, i as int), dest),
            forall|k: int| 0 <= k < i ==> #[trigger] selected@[k] == spec_deployed(
                old(selected)@[k],
            ),
            forall|k: int| i <= k < n ==> #[trigger] selected@[k] == old(selected)@[k],
        decreases n - i,
    {
        proof {
            assert(old(selected)@.subrange(0, i + 1).drop_last() =~= old(selected)@.subrange(
                0,
                i as int,
            ));
        }
        let s = selected[i];
        match s.owner.0 {
            Some(owner) => {
                orders.push(
                    DeployOrder { planet_pos: s.pos, owner, count: s.planet.fighters, dest },
                );
                selected.set(
                    i,
                    SelectedPlanet {
                        planet: Planet { fighters: 0, planet_type: s.planet.planet_type },
                        owner: s.owner,
                        pos: s.pos,
                    },
                );
            },
            None => {},
        }
        i = i + 1;
    }
    proof {
        assert(old(selected)@.subrange(0, n as int) =~= old(selected)@);
    }
    orders
}

/// After the deployed fighters are spawned, a fleet sent to a bare point in
/// space is registered under that point, so that the first arrival stops
/// them all; any other destination needs no bookkeeping, and neither does an
/// empty fleet.
pub fn register_deployed_fleet(
    fleets: &mut crate::fleets::MovingFleets,
    dest: &crate::movement::DestinationEnum,
    ship_ids: Vec<u64>,
)
    requires
        old(fleets).wf(),
    ensures
        final(fleets).wf(),
        (*dest) matches crate::movement::DestinationEnum::Space(loc) ==> ship_ids@.len() > 0
            ==> final(fleets)@ == old(fleets)@.insert(loc, ship_ids@),
        !((*dest) is Space) || ship_ids@.len() == 0 ==> final(fleets)@ == old(fleets)@,
{
    if ship_ids.len() == 0 {
        return ;
    }
    match dest {
        crate::movement::DestinationEnum::Space(loc) => {
            fleets.insert(*loc, ship_ids);
        },
        _ => {},
    }
}

/// Players' starting planets must not crowd each other: a candidate position
/// conflicts with a placed planet closer than five capital radii.
pub const MIN_PLANET_SEPARATION: i64 = 60_000;

/// True when the candidate position is too close to an already placed
/// planet. The placement loop keeps drawing positions until this clears.
pub fn placement_conflict(placed: &Vec<Vec3Fix>, candidate: Vec3Fix) -> (r: bool)
    requires
        candidate.in_world(),
        forall|i: int| 0 <= i < placed@.len() ==> (#[trigger] placed@[i]).in_world(),
    ensures
        r <==> exists|i: int|
            0 <= i < placed@.len() && crate::geom::dist_sq(#[trigger] placed@[i], candidate)
                < MIN_PLANET_SEPARATION * MIN_PLANET_SEPARATION,
{
    let n = placed.len();
    let mut i: usize = 0;
    while i < n
        invariant
            i <= n == placed@.len(),
            candidate.in_world(),
            forall|k: int| 0 <= k < n ==> (#[trigger] placed@[k]).in_world(),
            forall|k: int| 0 <= k < i ==> crate::geom::dist_sq(#[trigger] placed@[k], candidate)
                >= MIN_PLANET_SEPARATION * MIN_PLANET_SEPARATION,
        decreases n - i,
    {
        let d2 = crate::geom::distance_squared(placed[i], candidate);
        if d2 < (MIN_PLANET_SEPARATION as u128) * (MIN_PLANET_SEPARATION as u128) {
            return true;
        }
        i = i + 1;
    }
    false
}


/// What each face of the ten-sided production die yields: three in ten give
/// an outpost, two a watch, two a base, two a colony, and one a capital.
pub open spec fn spec_planet_type_of_draw(d: int) -> PlanetType {
    if d <= 2 {
        PlanetType::Outpost
    } else if d <= 4 {
        PlanetType::Watch
    } else if d <= 6 {
        PlanetType::Base
    } else if d <= 8 {
        PlanetType::Colony
    } else {
        PlanetType::Capital
    }
}

/// Maps one draw of the ten-sided die to its planet kind.
pub fn planet_type_from_draw(d: u32) -> (pt: PlanetType)
    requires
        d <= 9,
    ensures
        pt == spec_planet_type_of_draw(d as int),
{
    match d {
        0 | 1 | 2 => PlanetType::Outpost,
        3 | 4 => PlanetType::Watch,
        5 | 6 => PlanetType::Base,
        7 | 8 => PlanetType::Colony,
        _ => PlanetType::Capital,
    }
}

/// Relies on rand's `Rng::gen_range` on the thread-local generator: the
/// draw lies in the half-open range it is given, and the range `0..n` is
/// non-empty.
#[verifier::external_body]
fn random_below(n: u32) -> (r: u32)
    requires
        n > 0,
    ensures
        r < n,
{
    rand::Rng::gen_range(&mut rand::thread_rng(), 0..n)
}

/// Draws a random planet kind with the production die's weights. Each call
/// may differ; every outcome is one of the five kinds by construction.
pub fn random_planet_type() -> (pt: PlanetType)
{
    let d = random_below(10);
    planet_type_from_draw(d)
}

} // verus!
