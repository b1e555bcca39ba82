//! Trade routes: an ordered loop of waypoints a trader repeats for ever,
//! and the mode in which a player lays one down.

use vstd::prelude::*;

use crate::geom::Vec2Fix;
use crate::layers::Layers;
use crate::layers::at_layer;
use crate::layers::vec2_to_vec3;
use crate::movement::Destination;
use crate::movement::DestinationEnum;
use crate::movement::find_planet;
use crate::movement::first_hit;
use crate::production::PlanetAt;

verus! {

/// The waypoint loop of a trader: the waypoints, their count, and the cursor
/// of the one it last set out for.
#[derive(Clone, Debug)]
pub struct TradeRoute {
    pub route_loop: Option<Vec<DestinationEnum>>,
    pub route_size: usize,
    pub route_pos: usize,
}

impl TradeRoute {
    /// The counters agree with the waypoints: the size is their number, and
    /// the cursor points at one of them. A trader without a route keeps both
    /// at zero.
    pub open spec fn wf(self) -> bool {
        match self.route_loop {
            Some(r) => self.route_size == r@.len() && self.route_pos < self.route_size,
            None => self.route_size == 0 && self.route_pos == 0,
        }
    }
}

impl Default for TradeRoute {
    /// A trader starts with no route at all.
    fn default() -> (r: Self)
        ensures
            r.route_loop is None,
            r.route_size == 0,
            r.route_pos == 0,
            r.wf(),
    {
        Self { route_loop: None, route_size: 0, route_pos: 0 }
    }
}

/// A trader that has finished a leg (its destination is `Nowhere`) sets out
/// for the next waypoint of its loop, cyclically; a trader still under way,
/// or without a route, is left alone.
pub fn update_trade_destination(dest: &mut Destination, route: &mut TradeRoute)
    requires
        old(route).wf(),
    ensures
        final(route).wf(),
        old(route).route_loop is None || !(old(dest).0 is Nowhere) ==> {
            &&& *final(dest) == *old(dest)
            &&& *final(route) == *old(route)
        },
        old(route).route_loop matches Some(r) ==> old(dest).0 is Nowhere ==> {
            let next = (old(route).route_pos + 1) % (old(route).route_size as int);
            &&& final(route).route_loop == old(route).route_loop
            &&& final(route).route_size == old(route).route_size
            &&& final(route).route_pos == next
            &&& final(dest).0 == r@[next]
        },
{
    let has_route = route.route_loop.is_some();
    let is_idle = match dest.0 {
        DestinationEnum::Nowhere => true,
        _ => false,
    };
    if has_route && is_idle {
        let next = (route.route_pos + 1) % route.route_size;
        let new_dest = match &route.route_loop {
            Some(r) => r[next],
            None => DestinationEnum::Nowhere,
        };
        dest.0 = new_dest;
        route.route_pos = next;
    }
}

/// The state of laying a trade route down: whether the routing key is held,
/// and the waypoints clicked so far.
pub struct IsTradeRouting {
    pub key_down: bool,
    pub trade_route: Vec<DestinationEnum>,
}

/// A selected trader, as route assignment sees it.
pub struct TradeShip {
    pub dest: DestinationEnum,
    pub route: TradeRoute,
}

/// What the routing state becomes after this frame's key press and click:
/// pressing the routing key starts an empty route; a right click while the
/// key is down appends the clicked point, but only when the click fell on a
/// planet.
pub open spec fn spec_routing_step(
    key_down0: bool,
    route0: Seq<DestinationEnum>,
    ctrl_pressed: bool,
    right_clicked: bool,
    planets: Seq<PlanetAt>,
    mouse: Vec2Fix,
) -> (bool, Seq<DestinationEnum>) {
    let kd = ctrl_pressed || key_down0;
    let base: Seq<DestinationEnum> = if ctrl_pressed {
        Seq::empty()
    } else {
        route0
    };
    if kd && right_clicked && first_hit(planets, at_layer(mouse, Layers::Planets)) is Some {
        (kd, base.push(DestinationEnum::Space(at_layer(mouse, Layers::Ships))))
    } else {
        (kd, base)
    }
}

/// An exact copy of a waypoint list.
fn clone_route(v: &Vec<DestinationEnum>) -> (r: Vec<DestinationEnum>)
    ensures
        r@ == v@,
{
    let n = v.len();
    let mut r: Vec<DestinationEnum> = Vec::new();
    let mut i: usize = 0;
    while i < n
        invariant
            i <= n == v@.len(),
            r@ == v@.subrange(0, i as int),
        decreases n - i,
    {
        r.push(v[i]);
        proof {
            assert(r@ =~= v@.subrange(0, i + 1));
        }
        i = i + 1;
    }
    proof {
        assert(v@.subrange(0, n as int) =~= v@);
    }
    r
}

/// Lays a trade route down. While the routing key is held, each right click
/// on a planet appends a waypoint; when the key is released, every selected
/// trader takes the whole loop as its route, sets out for its first
/// waypoint, and starts its cursor there.
pub fn define_trade_route(
    ctrl_pressed: bool,
    ctrl_released: bool,
    right_clicked: bool,
    mouse: Vec2Fix,
    planets: &Vec<PlanetAt>,
    routing: &mut IsTradeRouting,
    trade_ships: &mut Vec<TradeShip>,
)
    requires
        mouse.in_world(),
        forall|i: int| 0 <= i < planets@.len() ==> (#[trigger] planets@[i]).pos.in_world(),
        ctrl_released && spec_routing_step(
            old(routing).key_down,
            old(routing).trade_route@,
            ctrl_pressed,
            right_clicked,
            planets@,
            mouse,
        ).1.len() == 0 ==> old(trade_ships)@.len() == 0,
    ensures
        ({
            let (kd, r) = spec_routing_step(
                old(routing).key_down,
                old(routing).trade_route@,
                ctrl_pressed,
                right_clicked,
                planets@,
                mouse,
            );
            &&& final(routing).key_down == (if ctrl_released {
                false
            } else {
                kd
            })
            &&& final(routing).trade_route@ == r
            &&& final(trade_ships)@.len() == old(trade_ships)@.len()
            &&& if ctrl_released {
                forall|i: int| 0 <= i < final(trade_ships)@.len() ==> {
                    &&& (#[trigger] final(trade_ships)@[i]).dest == r[0]
                    &&& final(trade_ships)@[i].route.route_loop matches Some(v) && v@ == r
                    &&& final(trade_ships)@[i].route.route_size == r.len()
                    &&& final(trade_ships)@[i].route.route_pos == 0
                }
            } else {
                final(trade_ships)@ == old(trade_ships)@
            }
        }),
{
    if ctrl_pressed {
        routing.key_down = true;
        routing.trade_route = Vec::new();
        proof {
            assert(routing.trade_route@ =~= Seq::<DestinationEnum>::empty());
        }
    }
    if routing.key_down && right_clicked {
        let ship_dest = vec2_to_vec3(mouse, Layers::Ships);
        let planet_dest = vec2_to_vec3(mouse, Layers::Planets);
        let target_planet = find_planet(planets, planet_dest);
        if target_planet.is_some() {
            routing.trade_route.push(DestinationEnum::Space(ship_dest));
        }
    }
    if ctrl_released {
        routing.key_down = false;
        let ghost r = routing.trade_route@;
        let n = trade_ships.len();
        let mut i: usize = 0;
        while i < n
            invariant
                i <= n == trade_ships@.len() == old(trade_ships)@.len(),
                n > 0 ==> routing.trade_route@.len() > 0,
                routing.trade_route@ == r,
                forall|k: int| 0 <= k < i ==> {
                    &&& (#[trigger] trade_ships@[k]).dest == r[0]
                    &&& trade_ships@[k].route.route_loop matches Some(v) && v@ == r
                    &&& trade_ships@[k].route.route_size == r.len()
                    &&& trade_ships@[k].route.route_pos == 0
                },
                forall|k: int| i <= k < n ==> #[trigger] trade_ships@[k] == old(trade_ships)@[k],
            decreases n - i,
        {
            let waypoints = clone_route(&routing.trade_route);
            let first = waypoints[0];
            let size = waypoints.len();
            trade_ships.set(
                i,
                TradeShip {
                    dest: first,
                    route: TradeRoute { route_loop: Some(waypoints), route_size: size, route_pos: 0 },
                },
            );
            i = i + 1;
        }
    }
}

} // verus!
