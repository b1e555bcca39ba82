//! Per-ship movement: where a ship is bound, the thrust it commands each
//! frame, and how a destination is picked from a mouse click.

use vstd::prelude::*;

use crate::geom::UNIT;
use crate::geom::Vec2Fix;
use crate::geom::Vec3Fix;
use crate::geom::dist_sq;
use crate::geom::distance;
use crate::geom::div_trunc;
use crate::geom::mul_div_trunc;
use crate::geom::nrm;
use crate::geom::sqrt_floor;
use crate::geom::try_normalize;
use crate::geom::unit_comp;
use crate::geom::vadd;
use crate::geom::vsub;
use crate::layers::Layers;
use crate::layers::spec_get_z;
use crate::layers::vec2_to_vec3;
use crate::fleets::MovingFleets;
use crate::production::PlanetAt;
use crate::production::spec_planet_radius;

verus! {

/// Where a ship is bound: nowhere, a point in space, or a planet approached
/// through a point on the ship layer.
#[derive(Clone, Copy, Debug, PartialEq, Eq, Structural)]
pub enum DestinationEnum {
    Nowhere,
    Space(Vec3Fix),
    Planet { planet: u64, loc: Vec3Fix },
}

/// The destination component of a ship.
#[derive(Clone, Copy, Debug)]
pub struct Destination(pub DestinationEnum);

/// How fast a ship may go, in milliunits per second.
#[derive(Clone, Copy, Debug)]
pub struct Movement {
    pub speed: u64,
}

/// The current steering-away impulse of a ship, a unit-scale vector.
#[derive(Clone, Copy, Debug)]
pub struct Avoidance {
    pub impulse: Vec3Fix,
}

/// A ship arrives when it comes within one world unit of its point in space.
pub const ARRIVE_RADIUS: i64 = 1000;

/// The floor on the acceleration a moving ship commands, in milliunits.
pub const MIN_ACCEL: u64 = 4000;

/// Angular damping (scaled by 1000) for a ship with no destination.
pub const IDLE_ANGULAR_DAMPING: u32 = 20_000;

/// What one movement step asks of the physics engine.
#[derive(Clone, Copy, Debug, PartialEq, Eq, Structural)]
pub enum MoveAction {
    /// Leave the ship alone.
    Hold,
    /// The ship reached this point; its fleet may be told.
    Arrived(Vec3Fix),
    /// Apply this impulse, in milliunits.
    Thrust(Vec3Fix),
}

/// The acceleration a ship commands: its distance to the destination, capped
/// by its speed, but never below `MIN_ACCEL`.
pub open spec fn spec_accel(dist: int, speed: int) -> int {
    let m = if dist < speed {
        dist
    } else {
        speed
    };
    if m < MIN_ACCEL {
        MIN_ACCEL as int
    } else {
        m
    }
}

/// The componentwise sum of two vectors (used where the sum is known to fit).
pub open spec fn vsum(a: Vec3Fix, b: Vec3Fix) -> Vec3Fix {
    Vec3Fix { x: (a.x + b.x) as i64, y: (a.y + b.y) as i64, z: (a.z + b.z) as i64 }
}

/// The impulse that steers along `w`: the unit vector of `w`, scaled by
/// `accel` and the frame time. Each factor is in fixed point, so the result
/// is divided by `UNIT * 1_000_000`.
pub open spec fn steer_impulse_ok(imp: Vec3Fix, w: Vec3Fix, accel: int, dt: int) -> bool {
    &&& imp.x == div_trunc(unit_comp(w.x as int, nrm(w)) * accel * dt, 1_000_000_000)
    &&& imp.y == div_trunc(unit_comp(w.y as int, nrm(w)) * accel * dt, 1_000_000_000)
    &&& imp.z == div_trunc(unit_comp(w.z as int, nrm(w)) * accel * dt, 1_000_000_000)
}

/// The impulse of a ship that only drifts away from a neighbour: the unit
/// vector of `w` scaled by the frame time alone.
pub open spec fn drift_impulse_ok(imp: Vec3Fix, w: Vec3Fix, dt: int) -> bool {
    &&& imp.x == div_trunc(unit_comp(w.x as int, nrm(w)) * dt, 1_000_000)
    &&& imp.y == div_trunc(unit_comp(w.y as int, nrm(w)) * dt, 1_000_000)
    &&& imp.z == div_trunc(unit_comp(w.z as int, nrm(w)) * dt, 1_000_000)
}

/// Scales a unit vector by `accel` over one frame.
fn scaled_impulse(u: Vec3Fix, accel: u64, dt: u64) -> (imp: Vec3Fix)
    requires
        u.bounded(UNIT as int),
        accel <= 1_000_000_000,
        dt <= 60_000_000,
    ensures
        imp.x == div_trunc(u.x as int * accel as int * dt as int, 1_000_000_000),
        imp.y == div_trunc(u.y as int * accel as int * dt as int, 1_000_000_000),
        imp.z == div_trunc(u.z as int * accel as int * dt as int, 1_000_000_000),
{
    Vec3Fix {
        x: mul_div_trunc(u.x, accel, dt, 1_000_000_000),
        y: mul_div_trunc(u.y, accel, dt, 1_000_000_000),
        z: mul_div_trunc(u.z, accel, dt, 1_000_000_000),
    }
}

/// The thrust toward a point `loc`, shared by the space and planet cases:
/// steer along `up + avoid` with the arrival-scaled acceleration.
fn thrust_toward(
    pos: Vec3Fix,
    loc: Vec3Fix,
    up: Vec3Fix,
    avoid: Vec3Fix,
    speed: u64,
    dt_micros: u64,
) -> (imp: Vec3Fix)
    requires
        pos.in_world(),
        loc.in_world(),
        up.bounded(UNIT as int),
        avoid.bounded(UNIT as int),
        speed <= 1_000_000_000,
        dt_micros <= 60_000_000,
    ensures
        ({
            let w = vsum(up, avoid);
            if w.x == 0 && w.y == 0 && w.z == 0 {
                imp == (Vec3Fix { x: 0, y: 0, z: 0 })
            } else {
                steer_impulse_ok(
                    imp,
                    w,
                    spec_accel(sqrt_floor(dist_sq(pos, loc)), speed as int),
                    dt_micros as int,
                )
            }
        }),
{
    let d = distance(pos, loc);
    let m = if d < speed {
        d
    } else {
        speed
    };
    let accel = if m < MIN_ACCEL {
        MIN_ACCEL
    } else {
        m
    };
    let w = vadd(up, avoid);
    match try_normalize(w) {
        Some(u) => scaled_impulse(u, accel, dt_micros),
        None => Vec3Fix { x: 0, y: 0, z: 0 },
    }
}

/// One movement step for one ship. A ship bound for a point in space thrusts
/// toward it and arrives (clearing its destination) within `ARRIVE_RADIUS`;
/// a ship bound for a planet keeps thrusting until it collides; a ship bound
/// nowhere only drifts along its avoidance impulse. When steering and
/// avoidance cancel exactly, the commanded impulse is zero.
pub fn move_to_destination(
    dest: &mut Destination,
    pos: Vec3Fix,
    up: Vec3Fix,
    avoid: &Avoidance,
    mov: &Movement,
    dt_micros: u64,
) -> (act: MoveAction)
    requires
        old(dest).0 matches DestinationEnum::Space(loc) ==> loc.in_world(),
        old(dest).0 matches DestinationEnum::Planet { loc, .. } ==> loc.in_world(),
        pos.in_world(),
        up.bounded(UNIT as int),
        avoid.impulse.bounded(UNIT as int),
        mov.speed <= 1_000_000_000,
        dt_micros <= 60_000_000,
    ensures
        old(dest).0 matches DestinationEnum::Nowhere ==> {
            &&& final(dest).0 is Nowhere
            &&& if avoid.impulse.x == 0 && avoid.impulse.y == 0 && avoid.impulse.z == 0 {
                act == MoveAction::Hold
            } else {
                act matches MoveAction::Thrust(imp)
                    && drift_impulse_ok(imp, avoid.impulse, dt_micros as int)
            }
        },
        old(dest).0 matches DestinationEnum::Space(loc) ==> {
            if dist_sq(pos, loc) < ARRIVE_RADIUS * ARRIVE_RADIUS {
                &&& final(dest).0 is Nowhere
                &&& act == MoveAction::Arrived(loc)
            } else {
                &&& final(dest).0 == old(dest).0
                &&& thrust_action_ok(act, pos, loc, up, avoid.impulse, mov.speed, dt_micros)
            }
        },
        old(dest).0 matches DestinationEnum::Planet { planet, loc } ==> {
            &&& final(dest).0 == old(dest).0
            &&& thrust_action_ok(act, pos, loc, up, avoid.impulse, mov.speed, dt_micros)
        },
{
    match dest.0 {
        DestinationEnum::Space(loc) => {
            let d = distance(pos, loc);
            proof {
                crate::geom::lemma_dist_threshold(
                    d as int,
                    dist_sq(pos, loc),
                    ARRIVE_RADIUS as int,
                );
            }
            if d < 1000 {
                dest.0 = DestinationEnum::Nowhere;
                MoveAction::Arrived(loc)
            } else {
                MoveAction::Thrust(
                    thrust_toward(pos, loc, up, avoid.impulse, mov.speed, dt_micros),
                )
            }
        },
        DestinationEnum::Planet { planet: _, loc } => {
            MoveAction::Thrust(thrust_toward(pos, loc, up, avoid.impulse, mov.speed, dt_micros))
        },
        DestinationEnum::Nowhere => {
            if avoid.impulse.x == 0 && avoid.impulse.y == 0 && avoid.impulse.z == 0 {
                MoveAction::Hold
            } else {
                match try_normalize(avoid.impulse) {
                    Some(u) => MoveAction::Thrust(
                        Vec3Fix {
                            x: mul_div_trunc(u.x, 1, dt_micros, 1_000_000),
                            y: mul_div_trunc(u.y, 1, dt_micros, 1_000_000),
                            z: mul_div_trunc(u.z, 1, dt_micros, 1_000_000),
                        },
                    ),
                    None => MoveAction::Hold,
                }
            }
        },
    }
}

/// What a thrusting step promises: the impulse steers along `up + avoid`
/// toward `loc`, or is zero when that sum vanishes.
pub open spec fn thrust_action_ok(
    act: MoveAction,
    pos: Vec3Fix,
    loc: Vec3Fix,
    up: Vec3Fix,
    avoid: Vec3Fix,
    speed: u64,
    dt: u64,
) -> bool {
    act matches MoveAction::Thrust(imp) && {
        let w = vsum(up, avoid);
        if w.x == 0 && w.y == 0 && w.z == 0 {
            imp == (Vec3Fix { x: 0, y: 0, z: 0 })
        } else {
            steer_impulse_ok(imp, w, spec_accel(sqrt_floor(dist_sq(pos, loc)), speed as int), dt as int)
        }
    }
}

/// An idle ship is damped hard so that it stops spinning; a ship under way
/// is not damped at all. Returns the angular damping, scaled by 1000.
pub fn damping_shift(dest: &Destination) -> (damping: u32)
    ensures
        dest.0 is Nowhere ==> damping == IDLE_ANGULAR_DAMPING,
        !(dest.0 is Nowhere) ==> damping == 0,
{
    match dest.0 {
        DestinationEnum::Nowhere => IDLE_ANGULAR_DAMPING,
        _ => 0,
    }
}

/// True when `target` falls inside this planet's disc.
pub open spec fn planet_hit(p: PlanetAt, target: Vec3Fix) -> bool {
    dist_sq(target, p.pos) < spec_planet_radius(p.planet_type) * spec_planet_radius(p.planet_type)
}

/// The first planet of the list that `target` falls on, if any.
pub open spec fn first_hit(ps: Seq<PlanetAt>, target: Vec3Fix) -> Option<u64>
    decreases ps.len(),
{
    if ps.len() == 0 {
        None
    } else if planet_hit(ps[0], target) {
        Some(ps[0].id)
    } else {
        first_hit(ps.drop_first(), target)
    }
}

/// Scans the planets in order and returns the id of the first one whose disc
/// contains `planet_dest`.
pub fn find_planet(planets: &Vec<PlanetAt>, planet_dest: Vec3Fix) -> (r: Option<u64>)
    requires
        planet_dest.in_world(),
        forall|i: int| 0 <= i < planets@.len() ==> (#[trigger] planets@[i]).pos.in_world(),
    ensures
        r == first_hit(planets@, planet_dest),
{
    let n = planets.len();
    let mut i: usize = 0;
    proof {
        assert(planets@.skip(0) =~= planets@);
    }
    while i < n
        invariant
            i <= n == planets@.len(),
            planet_dest.in_world(),
            forall|k: int| 0 <= k < n ==> (#[trigger] planets@[k]).pos.in_world(),
            first_hit(planets@, planet_dest) == first_hit(planets@.skip(i as int), planet_dest),
        decreases n - i,
    {
        let p = planets[i];
        let radius = crate::production::planet_type_to_radius(&p.planet_type);
        let d2 = crate::geom::distance_squared(planet_dest, p.pos);
        proof {
            assert(planets@.skip(i as int)[0] == planets@[i as int]);
            assert(planets@.skip(i as int).drop_first() =~= planets@.skip(i + 1));
        }
        if d2 < (radius as u128) * (radius as u128) {
            return Some(p.id);
        }
        i = i + 1;
    }
    proof {
        assert(planets@.skip(n as int) =~= Seq::<PlanetAt>::empty());
    }
    None
}

/// One selectable ship as the movement orders see it: its entity id and
/// where it is bound.
#[derive(Clone, Copy, Debug)]
pub struct ShipNav {
    pub id: u64,
    pub dest: DestinationEnum,
}

/// What a right click orders the selected ships to do, once the click has
/// been lifted to the planet and ship layers: approach the first planet the
/// click fell on, or move to the bare point in space.
pub open spec fn click_order(planets: Seq<PlanetAt>, mouse: Vec2Fix) -> DestinationEnum {
    let planet_dest = Vec3Fix { x: mouse.x, y: mouse.y, z: spec_get_z(Layers::Planets) };
    let ship_dest = Vec3Fix { x: mouse.x, y: mouse.y, z: spec_get_z(Layers::Ships) };
    match first_hit(planets, planet_dest) {
        Some(e) => DestinationEnum::Planet { planet: e, loc: ship_dest },
        None => DestinationEnum::Space(ship_dest),
    }
}

/// A right click sends every selected ship somewhere — unless a trade route
/// is being laid down, when the click belongs to that mode instead. A click
/// on a planet sends them to the planet; a click on empty space groups them
/// into a fleet, registered under the destination point, so that the first
/// arrival can stop them all.
pub fn set_destination(
    trade_routing: bool,
    right_pressed: bool,
    mouse: Vec2Fix,
    planets: &Vec<PlanetAt>,
    selected: &mut Vec<ShipNav>,
    fleets: &mut MovingFleets,
)
    requires
        mouse.in_world(),
        forall|i: int| 0 <= i < planets@.len() ==> (#[trigger] planets@[i]).pos.in_world(),
        old(fleets).wf(),
    ensures
        final(fleets).wf(),
        final(selected)@.len() == old(selected)@.len(),
        !right_pressed || trade_routing ==> {
            &&& final(selected)@ == old(selected)@
            &&& final(fleets)@ == old(fleets)@
        },
        right_pressed && !trade_routing ==> {
            let order = click_order(planets@, mouse);
            &&& forall|i: int| 0 <= i < final(selected)@.len()
                ==> #[trigger] final(selected)@[i]
                    == (ShipNav { id: old(selected)@[i].id, dest: order })
            &&& if order is Space {
                final(fleets)@ == old(fleets)@.insert(
                    order->Space_0,
                    old(selected)@.map_values(|s: ShipNav| s.id),
                )
            } else {
                final(fleets)@ == old(fleets)@
            }
        },
{
    if trade_routing || !right_pressed {
        return ;
    }
    let planet_dest = vec2_to_vec3(mouse, Layers::Planets);
    let ship_dest = vec2_to_vec3(mouse, Layers::Ships);
    let target_planet = find_planet(planets, planet_dest);
    let n = selected.len();
    match target_planet {
        Some(e) => {
            let mut i: usize = 0;
            while i < n
                invariant
                    i <= n == selected@.len() == old(selected)@.len(),
                    first_hit(planets@, planet_dest) == Some(e),
                    ship_dest == (Vec3Fix {
                        x: mouse.x,
                        y: mouse.y,
                        z: spec_get_z(Layers::Ships),
                    }),
                    forall|k: int| 0 <= k < i ==> #[trigger] selected@[k] == (ShipNav {
                        id: old(selected)@[k].id,
                        dest: DestinationEnum::Planet { planet: e, loc: ship_dest },
                    }),
                    forall|k: int| i <= k < n ==> #[trigger] selected@[k] == old(selected)@[k],
                decreases n - i,
            {
                let id = selected[i].id;
                selected.set(
                    i,
                    ShipNav { id, dest: DestinationEnum::Planet { planet: e, loc: ship_dest } },
                );
                i = i + 1;
            }
        },
        None => {
            let mut moving_fleet: Vec<u64> = Vec::new();
            let mut i: usize = 0;
            while i < n
                invariant
                    i <= n == selected@.len() == old(selected)@.len(),
                    first_hit(planets@, planet_dest) is None,
                    ship_dest == (Vec3Fix {
                        x: mouse.x,
                        y: mouse.y,
                        z: spec_get_z(Layers::Ships),
                    }),
                    moving_fleet@ == old(selected)@.subrange(0, i as int).map_values(
                        |s: ShipNav| s.id,
                    ),
                    forall|k: int| 0 <= k < i ==> #[trigger] selected@[k] == (ShipNav {
                        id: old(selected)@[k].id,
                        dest: DestinationEnum::Space(ship_dest),
                    }),
                    forall|k: int| i <= k < n ==> #[trigger] selected@[k] == old(selected)@[k],
                decreases n - i,
            {
                let id = selected[i].id;
                selected.set(i, ShipNav { id, dest: DestinationEnum::Space(ship_dest) });
                moving_fleet.push(id);
                proof {
                    assert(old(selected)@.subrange(0, i + 1).drop_last()
                        =~= old(selected)@.subrange(0, i as int));
                    assert(moving_fleet@ =~= old(selected)@.subrange(0, i + 1).map_values(
                        |s: ShipNav| s.id,
                    ));
                }
                i = i + 1;
            }
            proof {
                assert(old(selected)@.subrange(0, n as int) =~= old(selected)@);
            }
            fleets.insert(ship_dest, moving_fleet);
        },
    }
}

/// True when this vector of ship ids mentions `id`.
fn contains_id(v: &Vec<u64>, id: u64) -> (r: bool)
    ensures
        r == v@.contains(id),
{
    let n = v.len();
    let mut i: usize = 0;
    while i < n
        invariant
            i <= n == v@.len(),
            forall|j: int| 0 <= j < i ==> v@[j] != id,
        decreases n - i,
    {
        if v[i] == id {
            return true;
        }
        i = i + 1;
    }
    proof {
        assert(!v@.contains(id));
    }
    false
}

/// What a fleet arrival makes of one ship: a member of the arrived fleet
/// still bound for the arrival point stops; everyone else is untouched.
pub open spec fn spec_fleet_cleared(
    s: ShipNav,
    fleet: Map<Vec3Fix, Seq<u64>>,
    arrived: Vec3Fix,
) -> ShipNav {
    if fleet.contains_key(arrived) && fleet[arrived].contains(s.id)
        && s.dest == DestinationEnum::Space(arrived) {
        ShipNav { id: s.id, dest: DestinationEnum::Nowhere }
    } else {
        s
    }
}

/// A ship of a fleet arrived at `arrived`: the fleet is disbanded, and every
/// ship of it that is still bound for that very point stops there.
pub fn remove_destination(fleets: &mut MovingFleets, ships: &mut Vec<ShipNav>, arrived: Vec3Fix)
    requires
        old(fleets).wf(),
    ensures
        final(fleets).wf(),
        final(fleets)@ == old(fleets)@.remove(arrived),
        final(ships)@.len() == old(ships)@.len(),
        forall|i: int| 0 <= i < final(ships)@.len() ==> #[trigger] final(ships)@[i]
            == spec_fleet_cleared(old(ships)@[i], old(fleets)@, arrived),
{
    let fleet = fleets.remove(arrived);
    match fleet {
        Some(fleet_entities) => {
            let n = ships.len();
            let mut i: usize = 0;
            while i < n
                invariant
                    i <= n == ships@.len() == old(ships)@.len(),
                    fleet_entities@ == old(fleets)@[arrived],
                    old(fleets)@.contains_key(arrived),
                    forall|k: int| 0 <= k < i ==> #[trigger] ships@[k]
                        == spec_fleet_cleared(old(ships)@[k], old(fleets)@, arrived),
                    forall|k: int| i <= k < n ==> #[trigger] ships@[k] == old(ships)@[k],
                decreases n - i,
            {
                let s = ships[i];
                let in_fleet = contains_id(&fleet_entities, s.id);
                if in_fleet {
                    match s.dest {
                        DestinationEnum::Space(loc) => {
                            if loc == arrived {
                                ships.set(i, ShipNav { id: s.id, dest: DestinationEnum::Nowhere });
                            }
                        },
                        _ => {},
                    }
                }
                i = i + 1;
            }
        },
        None => {},
    }
}

/// The first pair of colliders reported as actually intersecting.
pub open spec fn first_intersection(ts: Seq<(u64, u64, bool)>) -> Option<(u64, u64)>
    decreases ts.len(),
{
    if ts.len() == 0 {
        None
    } else if ts[0].2 {
        Some((ts[0].0, ts[0].1))
    } else {
        first_intersection(ts.drop_first())
    }
}

/// The position of the first listed ship with this id, if any.
pub open spec fn ship_pos_of(ss: Seq<(u64, Vec3Fix)>, id: u64) -> Option<Vec3Fix>
    decreases ss.len(),
{
    if ss.len() == 0 {
        None
    } else if ss[0].0 == id {
        Some(ss[0].1)
    } else {
        ship_pos_of(ss.drop_first(), id)
    }
}

/// The avoidance impulse a ship ends the frame with: zero, unless its first
/// live intersection is with another ship, when it is pushed one unit
/// straight away from it.
pub open spec fn spec_avoidance(
    ship_id: u64,
    pos: Vec3Fix,
    intersections: Seq<(u64, u64, bool)>,
    others: Seq<(u64, Vec3Fix)>,
) -> Vec3Fix {
    let zero = Vec3Fix { x: 0, y: 0, z: 0 };
    match first_intersection(intersections) {
        None => zero,
        Some((a, b)) => {
            let other = if ship_id == a {
                b
            } else {
                a
            };
            match ship_pos_of(others, other) {
                None => zero,
                Some(opos) => {
                    let d = Vec3Fix {
                        x: (opos.x - pos.x) as i64,
                        y: (opos.y - pos.y) as i64,
                        z: (opos.z - pos.z) as i64,
                    };
                    if d.x == 0 && d.y == 0 && d.z == 0 {
                        zero
                    } else {
                        Vec3Fix {
                            x: -unit_comp(d.x as int, nrm(d)) as i64,
                            y: -unit_comp(d.y as int, nrm(d)) as i64,
                            z: -unit_comp(d.z as int, nrm(d)) as i64,
                        }
                    }
                },
            }
        },
    }
}

/// Looks up the first listed ship with this id.
fn find_ship_pos(others: &Vec<(u64, Vec3Fix)>, id: u64) -> (r: Option<Vec3Fix>)
    ensures
        r == ship_pos_of(others@, id),
{
    let n = others.len();
    let mut i: usize = 0;
    proof {
        assert(others@.skip(0) =~= others@);
    }
    while i < n
        invariant
            i <= n == others@.len(),
            ship_pos_of(others@, id) == ship_pos_of(others@.skip(i as int), id),
        decreases n - i,
    {
        proof {
            assert(others@.skip(i as int)[0] == others@[i as int]);
            assert(others@.skip(i as int).drop_first() =~= others@.skip(i + 1));
        }
        if others[i].0 == id {
            return Some(others[i].1);
        }
        i = i + 1;
    }
    proof {
        assert(others@.skip(n as int) =~= Seq::<(u64, Vec3Fix)>::empty());
    }
    None
}

/// Recomputes the avoidance impulse of one ship from this frame's collision
/// pairs: its first live intersection with another ship pushes it one unit
/// straight away from that ship; otherwise the impulse falls back to zero.
pub fn collision_avoidance(
    ship_id: u64,
    pos: Vec3Fix,
    intersections: &Vec<(u64, u64, bool)>,
    others: &Vec<(u64, Vec3Fix)>,
) -> (av: Avoidance)
    requires
        pos.in_world(),
        forall|i: int| 0 <= i < others@.len() ==> (#[trigger] others@[i]).1.in_world(),
    ensures
        av.impulse == spec_avoidance(ship_id, pos, intersections@, others@),
        av.impulse.bounded(UNIT as int),
{
    let zero = Vec3Fix { x: 0, y: 0, z: 0 };
    let n = intersections.len();
    let mut i: usize = 0;
    proof {
        assert(intersections@.skip(0) =~= intersections@);
    }
    while i < n
        invariant
            i <= n == intersections@.len(),
            pos.in_world(),
            forall|k: int| 0 <= k < others@.len() ==> (#[trigger] others@[k]).1.in_world(),
            first_intersection(intersections@) == first_intersection(
                intersections@.skip(i as int),
            ),
        decreases n - i,
    {
        proof {
            assert(intersections@.skip(i as int)[0] == intersections@[i as int]);
            assert(intersections@.skip(i as int).drop_first() =~= intersections@.skip(i + 1));
        }
        let (a, b, hit) = (intersections[i].0, intersections[i].1, intersections[i].2);
        if hit {
            proof {
                assert(first_intersection(intersections@.skip(i as int)) == Some((a, b)));
            }
            let other = if ship_id == a {
                b
            } else {
                a
            };
            match find_ship_pos(others, other) {
                Some(opos) => {
                    proof {
                        lemma_ship_pos_in_world(others@, other);
                    }
                    let d = vsub(opos, pos);
                    match try_normalize(d) {
                        Some(u) => {
                            return Avoidance {
                                impulse: Vec3Fix { x: -u.x, y: -u.y, z: -u.z },
                            };
                        },
                        None => {
                            return Avoidance { impulse: Vec3Fix { x: 0, y: 0, z: 0 } };
                        },
                    }
                },
                None => {
                    return Avoidance { impulse: Vec3Fix { x: 0, y: 0, z: 0 } };
                },
            }
        }
        i = i + 1;
    }
    proof {
        assert(intersections@.skip(n as int) =~= Seq::<(u64, u64, bool)>::empty());
    }
    Avoidance { impulse: zero }
}

/// Whatever `ship_pos_of` returns lies in the world.
proof fn lemma_ship_pos_in_world(ss: Seq<(u64, Vec3Fix)>, id: u64)
    requires
        forall|i: int| 0 <= i < ss.len() ==> (#[trigger] ss[i]).1.in_world(),
    ensures
        ship_pos_of(ss, id) matches Some(p) ==> p.in_world(),
    decreases ss.len(),
{
    if ss.len() > 0 && ss[0].0 != id {
        assert(forall|i: int|
            0 <= i < ss.drop_first().len() ==> (#[trigger] ss.drop_first()[i]).1.in_world());
        lemma_ship_pos_in_world(ss.drop_first(), id);
    }
}

} // verus!
