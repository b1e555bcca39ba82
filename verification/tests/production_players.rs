use galactic_wars::fleets::MovingFleets;
use galactic_wars::geom::Vec2Fix;
use galactic_wars::geom::Vec3Fix;
use galactic_wars::movement::DestinationEnum;
use galactic_wars::players::AllegianceStatus;
use galactic_wars::players::AllegiancesToOthers;
use galactic_wars::players::COLOR_BLUE;
use galactic_wars::players::COLOR_RED;
use galactic_wars::players::Ownership;
use galactic_wars::players::PlayerDetails;
use galactic_wars::players::PlayerMap;
use galactic_wars::players::PlayerMoney;
use galactic_wars::players::RegisteredPlayers;
use galactic_wars::players::register_players;
use galactic_wars::players::setup_allegiances;
use galactic_wars::players::setup_initial_resources;
use galactic_wars::players::setup_players;
use galactic_wars::players::who_am_i;
use galactic_wars::production::ArrivalOutcome;
use galactic_wars::production::Planet;
use galactic_wars::production::PlanetAt;
use galactic_wars::production::PlanetType;
use galactic_wars::production::SelectedPlanet;
use galactic_wars::production::count_fighters_stored;
use galactic_wars::production::deploy_fighters;
use galactic_wars::production::fighter_enters_planet;
use galactic_wars::production::placement_conflict;
use galactic_wars::production::planet_type_from_draw;
use galactic_wars::production::planet_type_to_radius;
use galactic_wars::production::production_tick;
use galactic_wars::production::random_planet_type;
use galactic_wars::production::register_deployed_fleet;
use galactic_wars::production::take_planet_ownership;
use galactic_wars::config::Galaxy;
use galactic_wars::config::InitGameSetup;
use galactic_wars::config::galaxy_size_to_radius;
use galactic_wars::ships::ShipType;
use galactic_wars::ships::count_fighters_deployed;
use galactic_wars::ships::count_traders;
use galactic_wars::ships::ship_speed;

#[test]
fn planet_radii() {
    assert_eq!(planet_type_to_radius(&PlanetType::Outpost), 2000);
    assert_eq!(planet_type_to_radius(&PlanetType::Watch), 3000);
    assert_eq!(planet_type_to_radius(&PlanetType::Base), 5000);
    assert_eq!(planet_type_to_radius(&PlanetType::Colony), 8000);
    assert_eq!(planet_type_to_radius(&PlanetType::Capital), 12000);
}

#[test]
fn galaxy_radii() {
    assert_eq!(galaxy_size_to_radius(&Galaxy::Tiny), 300_000);
    assert_eq!(galaxy_size_to_radius(&Galaxy::Small), 900_000);
    assert_eq!(galaxy_size_to_radius(&Galaxy::Medium), 1_500_000);
    assert_eq!(galaxy_size_to_radius(&Galaxy::Large), 2_200_000);
    assert_eq!(galaxy_size_to_radius(&Galaxy::Huge), 3_500_000);
    assert_eq!(galaxy_size_to_radius(&Galaxy::Ludicrous), 5_000_000);
}

#[test]
fn stock_setup() {
    let s = InitGameSetup::default();
    assert_eq!(s.no_of_planets, 50);
    assert_eq!(s.starting_resources, 500);
    assert_eq!(s.epoch_seconds, 3);
    assert!(matches!(s.galaxy_size, Galaxy::Tiny));
}

#[test]
fn production_feeds_owned_planets_only() {
    let mut planets = vec![
        (Planet { fighters: 3, planet_type: PlanetType::Base }, Ownership(Some(1))),
        (Planet { fighters: 5, planet_type: PlanetType::Watch }, Ownership(None)),
    ];
    production_tick(&mut planets);
    assert_eq!(planets[0].0.fighters, 4);
    assert_eq!(planets[1].0.fighters, 5);
}

#[test]
fn fighter_ignored_when_bound_elsewhere() {
    let mut planet = Planet { fighters: 2, planet_type: PlanetType::Base };
    let r = fighter_enters_planet(
        7,
        &mut planet,
        &Ownership(Some(1)),
        &DestinationEnum::Planet { planet: 8, loc: Vec3Fix::new(0, 0, 0) },
        &Ownership(Some(2)),
    );
    assert_eq!(r, ArrivalOutcome::Ignored);
    assert_eq!(planet.fighters, 2);
}

#[test]
fn fighter_stored_on_friendly_planet() {
    let mut planet = Planet { fighters: 2, planet_type: PlanetType::Base };
    let r = fighter_enters_planet(
        7,
        &mut planet,
        &Ownership(Some(1)),
        &DestinationEnum::Planet { planet: 7, loc: Vec3Fix::new(0, 0, 0) },
        &Ownership(Some(1)),
    );
    assert_eq!(r, ArrivalOutcome::Stored);
    assert_eq!(planet.fighters, 3);
}

#[test]
fn fighter_captures_empty_planet() {
    let mut planet = Planet { fighters: 0, planet_type: PlanetType::Base };
    let r = fighter_enters_planet(
        7,
        &mut planet,
        &Ownership(None),
        &DestinationEnum::Planet { planet: 7, loc: Vec3Fix::new(0, 0, 0) },
        &Ownership(Some(2)),
    );
    assert_eq!(r, ArrivalOutcome::Captured(2));
    assert_eq!(planet.fighters, 0);
}

#[test]
fn fighter_traded_against_defender() {
    let mut planet = Planet { fighters: 4, planet_type: PlanetType::Base };
    let r = fighter_enters_planet(
        7,
        &mut planet,
        &Ownership(Some(1)),
        &DestinationEnum::Planet { planet: 7, loc: Vec3Fix::new(0, 0, 0) },
        &Ownership(Some(2)),
    );
    assert_eq!(r, ArrivalOutcome::Defended);
    assert_eq!(planet.fighters, 3);
}

#[test]
fn unowned_fighter_is_repelled_by_a_defender() {
    // An ownerless ship may still crash into a defended planet: a defender
    // is spent and no capture happens.
    let mut planet = Planet { fighters: 4, planet_type: PlanetType::Base };
    let r = fighter_enters_planet(
        7,
        &mut planet,
        &Ownership(Some(1)),
        &DestinationEnum::Planet { planet: 7, loc: Vec3Fix::new(0, 0, 0) },
        &Ownership(None),
    );
    assert_eq!(r, ArrivalOutcome::Defended);
    assert_eq!(planet.fighters, 3);
}

#[test]
fn capture_is_applied_by_ownership_change() {
    let mut owner = Ownership(None);
    take_planet_ownership(&mut owner, 2);
    assert_eq!(owner, Ownership(Some(2)));
}

#[test]
fn stored_fighters_are_summed() {
    let planets = vec![
        Planet { fighters: 3, planet_type: PlanetType::Base },
        Planet { fighters: 0, planet_type: PlanetType::Watch },
        Planet { fighters: 39, planet_type: PlanetType::Capital },
    ];
    assert_eq!(count_fighters_stored(&planets), 42);
}

#[test]
fn stored_fighters_saturate_the_counter() {
    let planets = vec![
        Planet { fighters: u32::MAX, planet_type: PlanetType::Base },
        Planet { fighters: u32::MAX, planet_type: PlanetType::Base },
    ];
    assert_eq!(count_fighters_stored(&planets), u32::MAX);
}

#[test]
fn deployed_and_trader_counts() {
    let kinds = vec![ShipType::Fighter, ShipType::Trade, ShipType::Fighter, ShipType::Fighter];
    assert_eq!(count_fighters_deployed(&kinds), 3);
    assert_eq!(count_traders(&kinds), 1);
}

#[test]
fn stock_ship_speeds() {
    assert_eq!(ship_speed(&ShipType::Fighter), 35_000);
    assert_eq!(ship_speed(&ShipType::Trade), 12_000);
}

#[test]
fn die_faces_map_to_planet_kinds() {
    assert!(matches!(planet_type_from_draw(0), PlanetType::Outpost));
    assert!(matches!(planet_type_from_draw(1), PlanetType::Outpost));
    assert!(matches!(planet_type_from_draw(2), PlanetType::Outpost));
    assert!(matches!(planet_type_from_draw(3), PlanetType::Watch));
    assert!(matches!(planet_type_from_draw(4), PlanetType::Watch));
    assert!(matches!(planet_type_from_draw(5), PlanetType::Base));
    assert!(matches!(planet_type_from_draw(6), PlanetType::Base));
    assert!(matches!(planet_type_from_draw(7), PlanetType::Colony));
    assert!(matches!(planet_type_from_draw(8), PlanetType::Colony));
    assert!(matches!(planet_type_from_draw(9), PlanetType::Capital));
}

#[test]
fn random_planet_kind_is_always_one_of_the_five() {
    for _ in 0..200 {
        let pt = random_planet_type();
        let r = planet_type_to_radius(&pt);
        assert!(r == 2000 || r == 3000 || r == 5000 || r == 8000 || r == 12000);
    }
}

#[test]
fn deployment_empties_owned_planets() {
    let all_planets: Vec<PlanetAt> = vec![];
    let mut selected = vec![
        SelectedPlanet {
            planet: Planet { fighters: 5, planet_type: PlanetType::Base },
            owner: Ownership(Some(1)),
            pos: Vec3Fix::new(0, 0, 0),
        },
        SelectedPlanet {
            planet: Planet { fighters: 7, planet_type: PlanetType::Watch },
            owner: Ownership(None),
            pos: Vec3Fix::new(30_000, 0, 0),
        },
    ];
    let orders = deploy_fighters(true, Vec2Fix::new(90_000, 0), &all_planets, &mut selected);
    assert_eq!(orders.len(), 1);
    assert_eq!(orders[0].count, 5);
    assert_eq!(orders[0].owner, 1);
    assert_eq!(orders[0].dest, DestinationEnum::Space(Vec3Fix::new(90_000, 0, 0)));
    assert_eq!(selected[0].planet.fighters, 0);
    assert_eq!(selected[1].planet.fighters, 7);
}

#[test]
fn deployment_without_click_does_nothing() {
    let mut selected = vec![SelectedPlanet {
        planet: Planet { fighters: 5, planet_type: PlanetType::Base },
        owner: Ownership(Some(1)),
        pos: Vec3Fix::new(0, 0, 0),
    }];
    let orders = deploy_fighters(false, Vec2Fix::new(0, 0), &vec![], &mut selected);
    assert!(orders.is_empty());
    assert_eq!(selected[0].planet.fighters, 5);
}

#[test]
fn deployed_fleets_register_only_in_space() {
    let mut fleets = MovingFleets::new();
    let loc = Vec3Fix::new(9, 9, 0);
    register_deployed_fleet(&mut fleets, &DestinationEnum::Space(loc), vec![1, 2]);
    assert_eq!(fleets.remove(loc), Some(vec![1, 2]));
    register_deployed_fleet(
        &mut fleets,
        &DestinationEnum::Planet { planet: 3, loc },
        vec![4],
    );
    assert_eq!(fleets.remove(loc), None);
    register_deployed_fleet(&mut fleets, &DestinationEnum::Space(loc), vec![]);
    assert_eq!(fleets.remove(loc), None);
}

#[test]
fn planets_keep_their_distance() {
    let placed = vec![Vec3Fix::new(0, 0, 0)];
    assert!(placement_conflict(&placed, Vec3Fix::new(59_999, 0, 0)));
    assert!(!placement_conflict(&placed, Vec3Fix::new(60_000, 0, 0)));
    assert!(!placement_conflict(&vec![], Vec3Fix::new(0, 0, 0)));
}

#[test]
fn player_map_inserts_and_reads() {
    let mut m: PlayerMap<u32> = PlayerMap::new();
    m.insert(10, 1);
    m.insert(20, 2);
    m.insert(10, 3);
    assert_eq!(m.get(10), Some(&3));
    assert_eq!(m.get(20), Some(&2));
    assert_eq!(m.get(30), None);
}

#[test]
fn registering_the_stock_players() {
    let mut players = RegisteredPlayers(PlayerMap::new());
    let (id1, id2) = register_players(&mut players);
    let bob = players.0.get(id2).unwrap();
    assert_eq!(bob.name, "Bob");
    assert_eq!(bob.color, COLOR_RED);
    let caio = players.0.get(id1).unwrap();
    assert_eq!(caio.name, "Caio");
    assert_eq!(caio.color, COLOR_BLUE);
    assert_eq!(who_am_i("Caio", &players), Some(id1));
    assert_eq!(who_am_i("Nobody", &players), None);
}

#[test]
fn money_and_allegiances_follow_the_registry() {
    let mut players = RegisteredPlayers(PlayerMap::new());
    players.0.insert(1, PlayerDetails { name: String::from("Caio"), color: COLOR_BLUE });
    players.0.insert(2, PlayerDetails { name: String::from("Bob"), color: COLOR_RED });
    let mut money = PlayerMoney(PlayerMap::new());
    setup_initial_resources(&mut money, 500, &players);
    assert_eq!(money.0.get(1), Some(&500));
    assert_eq!(money.0.get(2), Some(&500));
    assert_eq!(money.0.get(3), None);
    let mut allegiances = AllegiancesToOthers(PlayerMap::new());
    setup_allegiances(1, &players, &mut allegiances);
    assert_eq!(allegiances.0.get(1), None);
    assert_eq!(allegiances.0.get(2), Some(&AllegianceStatus::Neutral));
}

#[test]
fn setting_up_players_finds_the_local_one() {
    let mut players = RegisteredPlayers(PlayerMap::new());
    let mut money = PlayerMoney(PlayerMap::new());
    let mut allegiances = AllegiancesToOthers(PlayerMap::new());
    let me = setup_players(500, &mut players, &mut money, &mut allegiances);
    let me = me.expect("the stock players include the local one");
    assert_eq!(players.0.get(me).unwrap().name, "Caio");
    assert_eq!(money.0.get(me), Some(&500));
    assert_eq!(allegiances.0.get(me), None);
    // The second stock player survives every draw.
    let bob = who_am_i("Bob", &players).expect("the second stock player is registered");
    assert_eq!(players.0.get(bob).unwrap().color, COLOR_RED);
    assert_eq!(money.0.get(bob), Some(&500));
    assert_eq!(allegiances.0.get(bob), Some(&AllegianceStatus::Neutral));
}
