use galactic_wars::fleets::MovingFleets;
use galactic_wars::geom::Vec2Fix;
use galactic_wars::geom::Vec3Fix;
use galactic_wars::movement::DestinationEnum;
use galactic_wars::movement::ShipNav;
use galactic_wars::movement::remove_destination;
use galactic_wars::movement::set_destination;
use galactic_wars::production::PlanetAt;
use galactic_wars::production::PlanetType;
use galactic_wars::trade::IsTradeRouting;
use galactic_wars::trade::TradeRoute;
use galactic_wars::trade::TradeShip;
use galactic_wars::trade::define_trade_route;
use galactic_wars::trade::update_trade_destination;
use galactic_wars::movement::Destination;

#[test]
fn fleets_insert_then_remove() {
    let mut fleets = MovingFleets::new();
    let key = Vec3Fix::new(1, 2, 0);
    fleets.insert(key, vec![10, 11, 12]);
    assert_eq!(fleets.remove(key), Some(vec![10, 11, 12]));
    assert_eq!(fleets.remove(key), None);
}

#[test]
fn fleets_insert_replaces() {
    let mut fleets = MovingFleets::new();
    let key = Vec3Fix::new(1, 2, 0);
    fleets.insert(key, vec![10]);
    fleets.insert(key, vec![20, 21]);
    assert_eq!(fleets.remove(key), Some(vec![20, 21]));
}

#[test]
fn set_destination_toward_planet() {
    let planets = vec![PlanetAt {
        id: 42,
        planet_type: PlanetType::Base,
        pos: Vec3Fix::new(0, 0, 0),
    }];
    let mut selected = vec![
        ShipNav { id: 1, dest: DestinationEnum::Nowhere },
        ShipNav { id: 2, dest: DestinationEnum::Nowhere },
    ];
    let mut fleets = MovingFleets::new();
    // A click within the base's five-unit radius.
    set_destination(false, true, Vec2Fix::new(3000, 0), &planets, &mut selected, &mut fleets);
    let want = DestinationEnum::Planet { planet: 42, loc: Vec3Fix::new(3000, 0, 0) };
    assert_eq!(selected[0].dest, want);
    assert_eq!(selected[1].dest, want);
    // No fleet was formed.
    assert_eq!(fleets.remove(Vec3Fix::new(3000, 0, 0)), None);
}

#[test]
fn set_destination_into_space_forms_a_fleet() {
    let planets = vec![PlanetAt {
        id: 42,
        planet_type: PlanetType::Base,
        pos: Vec3Fix::new(0, 0, 0),
    }];
    let mut selected = vec![
        ShipNav { id: 1, dest: DestinationEnum::Nowhere },
        ShipNav { id: 2, dest: DestinationEnum::Nowhere },
    ];
    let mut fleets = MovingFleets::new();
    let mouse = Vec2Fix::new(50_000, 0);
    set_destination(false, true, mouse, &planets, &mut selected, &mut fleets);
    let loc = Vec3Fix::new(50_000, 0, 0);
    assert_eq!(selected[0].dest, DestinationEnum::Space(loc));
    assert_eq!(selected[1].dest, DestinationEnum::Space(loc));
    assert_eq!(fleets.remove(loc), Some(vec![1, 2]));
}

#[test]
fn set_destination_ignored_while_routing() {
    let planets: Vec<PlanetAt> = vec![];
    let mut selected = vec![ShipNav { id: 1, dest: DestinationEnum::Nowhere }];
    let mut fleets = MovingFleets::new();
    set_destination(true, true, Vec2Fix::new(0, 0), &planets, &mut selected, &mut fleets);
    assert_eq!(selected[0].dest, DestinationEnum::Nowhere);
}

#[test]
fn remove_destination_stops_the_arrived_fleet() {
    let loc = Vec3Fix::new(7_000, 0, 0);
    let elsewhere = Vec3Fix::new(9_000, 9_000, 0);
    let mut fleets = MovingFleets::new();
    fleets.insert(loc, vec![1, 2, 3]);
    let mut ships = vec![
        // In the fleet and still bound for the point: stops.
        ShipNav { id: 1, dest: DestinationEnum::Space(loc) },
        // In the fleet but re-ordered elsewhere meanwhile: keeps going.
        ShipNav { id: 2, dest: DestinationEnum::Space(elsewhere) },
        // Not in the fleet: untouched.
        ShipNav { id: 9, dest: DestinationEnum::Space(loc) },
    ];
    remove_destination(&mut fleets, &mut ships, loc);
    assert_eq!(ships[0].dest, DestinationEnum::Nowhere);
    assert_eq!(ships[1].dest, DestinationEnum::Space(elsewhere));
    assert_eq!(ships[2].dest, DestinationEnum::Space(loc));
    assert_eq!(fleets.remove(loc), None);
}

#[test]
fn trade_route_default_is_empty() {
    let r = TradeRoute::default();
    assert!(r.route_loop.is_none());
    assert_eq!(r.route_size, 0);
    assert_eq!(r.route_pos, 0);
}

#[test]
fn trade_destination_cycles() {
    let a = DestinationEnum::Space(Vec3Fix::new(1_000, 0, 0));
    let b = DestinationEnum::Space(Vec3Fix::new(0, 1_000, 0));
    let mut dest = Destination(DestinationEnum::Nowhere);
    let mut route = TradeRoute {
        route_loop: Some(vec![a, b]),
        route_size: 2,
        route_pos: 0,
    };
    update_trade_destination(&mut dest, &mut route);
    assert_eq!(dest.0, b);
    assert_eq!(route.route_pos, 1);
    // Still under way: nothing changes.
    update_trade_destination(&mut dest, &mut route);
    assert_eq!(dest.0, b);
    assert_eq!(route.route_pos, 1);
    // Arrived again: the loop wraps around.
    dest.0 = DestinationEnum::Nowhere;
    update_trade_destination(&mut dest, &mut route);
    assert_eq!(dest.0, a);
    assert_eq!(route.route_pos, 0);
}

#[test]
fn defining_a_route_clicks_planets_only() {
    let planets = vec![PlanetAt {
        id: 1,
        planet_type: PlanetType::Colony,
        pos: Vec3Fix::new(0, 0, 0),
    }];
    let mut routing = IsTradeRouting { key_down: false, trade_route: vec![] };
    let mut ships: Vec<TradeShip> = vec![];
    // Press the routing key: an empty route begins.
    define_trade_route(true, false, false, Vec2Fix::new(0, 0), &planets, &mut routing, &mut ships);
    assert!(routing.key_down);
    assert_eq!(routing.trade_route.len(), 0);
    // A click on the colony is taken as a waypoint on the ship layer.
    define_trade_route(
        false,
        false,
        true,
        Vec2Fix::new(4_000, 0),
        &planets,
        &mut routing,
        &mut ships,
    );
    assert_eq!(routing.trade_route, vec![DestinationEnum::Space(Vec3Fix::new(4_000, 0, 0))]);
    // A click on empty space is not.
    define_trade_route(
        false,
        false,
        true,
        Vec2Fix::new(50_000, 0),
        &planets,
        &mut routing,
        &mut ships,
    );
    assert_eq!(routing.trade_route.len(), 1);
}

#[test]
fn releasing_the_key_assigns_the_route() {
    let planets = vec![
        PlanetAt { id: 1, planet_type: PlanetType::Colony, pos: Vec3Fix::new(0, 0, 0) },
        PlanetAt { id: 2, planet_type: PlanetType::Colony, pos: Vec3Fix::new(100_000, 0, 0) },
    ];
    let mut routing = IsTradeRouting { key_down: false, trade_route: vec![] };
    let mut ships = vec![TradeShip {
        dest: DestinationEnum::Nowhere,
        route: TradeRoute::default(),
    }];
    define_trade_route(true, false, false, Vec2Fix::new(0, 0), &planets, &mut routing, &mut ships);
    define_trade_route(
        false,
        false,
        true,
        Vec2Fix::new(0, 0),
        &planets,
        &mut routing,
        &mut ships,
    );
    define_trade_route(
        false,
        true,
        true,
        Vec2Fix::new(100_000, 0),
        &planets,
        &mut routing,
        &mut ships,
    );
    assert!(!routing.key_down);
    let w1 = DestinationEnum::Space(Vec3Fix::new(0, 0, 0));
    let w2 = DestinationEnum::Space(Vec3Fix::new(100_000, 0, 0));
    assert_eq!(ships[0].dest, w1);
    assert_eq!(ships[0].route.route_loop, Some(vec![w1, w2]));
    assert_eq!(ships[0].route.route_size, 2);
    assert_eq!(ships[0].route.route_pos, 0);
}
