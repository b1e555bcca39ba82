use galactic_wars::angles::HALF_TURN_URAD;
use galactic_wars::angles::TURN_URAD;
use galactic_wars::angles::get_angle_difference;
use galactic_wars::angles::turn_to_destination;
use galactic_wars::geom::Vec3Fix;
use galactic_wars::movement::Avoidance;
use galactic_wars::movement::Destination;
use galactic_wars::movement::DestinationEnum;
use galactic_wars::movement::MoveAction;
use galactic_wars::movement::Movement;
use galactic_wars::movement::collision_avoidance;
use galactic_wars::movement::damping_shift;
use galactic_wars::movement::find_planet;
use galactic_wars::movement::move_to_destination;
use galactic_wars::production::PlanetAt;
use galactic_wars::production::PlanetType;

#[test]
fn angle_difference_plain() {
    assert_eq!(get_angle_difference(1000, 250), 750);
    assert_eq!(get_angle_difference(250, 1000), -750);
    assert_eq!(get_angle_difference(0, 0), 0);
}

#[test]
fn angle_difference_wraps_short_way() {
    // A hair over half a turn ahead comes back as almost half a turn behind.
    let d = get_angle_difference(HALF_TURN_URAD + 1000, 0);
    assert_eq!(d, HALF_TURN_URAD + 1000 - TURN_URAD);
    // Exactly half a turn maps to the negative end of the interval.
    assert_eq!(get_angle_difference(HALF_TURN_URAD, 0), -HALF_TURN_URAD);
    assert_eq!(get_angle_difference(-HALF_TURN_URAD, 0), -HALF_TURN_URAD);
    // Just short of half a turn stays positive.
    assert_eq!(get_angle_difference(HALF_TURN_URAD - 1, 0), HALF_TURN_URAD - 1);
}

#[test]
fn turning_inside_deadband_coasts() {
    assert_eq!(turn_to_destination(5_000, 16_000), None);
    assert_eq!(turn_to_destination(-5_000, 16_000), None);
    assert_eq!(turn_to_destination(0, 16_000), None);
}

#[test]
fn turning_is_proportional_then_capped() {
    // 100_000 urad error over 16_000 us: 100_000 * 16_000 * 250 / 1_000_000.
    assert_eq!(turn_to_destination(100_000, 16_000), Some(400_000));
    // A large error over a long frame is capped.
    assert_eq!(turn_to_destination(HALF_TURN_URAD, 1_000_000), Some(10_000_000));
    // A negative error is not capped from below.
    assert_eq!(turn_to_destination(-HALF_TURN_URAD, 1_000_000), Some(-785_398_250));
}

#[test]
fn arriving_clears_the_destination() {
    let loc = Vec3Fix::new(500, 0, 0);
    let mut dest = Destination(DestinationEnum::Space(loc));
    let act = move_to_destination(
        &mut dest,
        Vec3Fix::new(0, 0, 0),
        Vec3Fix::new(0, 1000, 0),
        &Avoidance { impulse: Vec3Fix::new(0, 0, 0) },
        &Movement { speed: 35_000 },
        16_000,
    );
    assert_eq!(act, MoveAction::Arrived(loc));
    assert!(matches!(dest.0, DestinationEnum::Nowhere));
}

#[test]
fn thrust_toward_a_far_point() {
    // Ten units ahead: accel = min(dist, speed) = 10_000, unit = +y,
    // impulse.y = 1000 * 10_000 * 16_000 / 1_000_000_000 = 160.
    let loc = Vec3Fix::new(0, 10_000, 0);
    let mut dest = Destination(DestinationEnum::Space(loc));
    let act = move_to_destination(
        &mut dest,
        Vec3Fix::new(0, 0, 0),
        Vec3Fix::new(0, 1000, 0),
        &Avoidance { impulse: Vec3Fix::new(0, 0, 0) },
        &Movement { speed: 35_000 },
        16_000,
    );
    assert_eq!(act, MoveAction::Thrust(Vec3Fix::new(0, 160, 0)));
    assert!(matches!(dest.0, DestinationEnum::Space(_)));
}

#[test]
fn slow_ship_caps_accel_at_its_speed() {
    // Distance 100 units but speed only 12 units/s: accel = 12_000.
    // impulse.y = 1000 * 12_000 * 16_000 / 1_000_000_000 = 192.
    let loc = Vec3Fix::new(0, 100_000, 0);
    let mut dest = Destination(DestinationEnum::Planet { planet: 7, loc });
    let act = move_to_destination(
        &mut dest,
        Vec3Fix::new(0, 0, 0),
        Vec3Fix::new(0, 1000, 0),
        &Avoidance { impulse: Vec3Fix::new(0, 0, 0) },
        &Movement { speed: 12_000 },
        16_000,
    );
    assert_eq!(act, MoveAction::Thrust(Vec3Fix::new(0, 192, 0)));
}

#[test]
fn close_ship_keeps_minimum_accel() {
    // Two units away (beyond arrival): accel floors at 4000.
    // impulse.y = 1000 * 4000 * 16_000 / 1_000_000_000 = 64.
    let loc = Vec3Fix::new(0, 2_000, 0);
    let mut dest = Destination(DestinationEnum::Space(loc));
    let act = move_to_destination(
        &mut dest,
        Vec3Fix::new(0, 0, 0),
        Vec3Fix::new(0, 1000, 0),
        &Avoidance { impulse: Vec3Fix::new(0, 0, 0) },
        &Movement { speed: 35_000 },
        16_000,
    );
    assert_eq!(act, MoveAction::Thrust(Vec3Fix::new(0, 64, 0)));
}

#[test]
fn idle_ship_drifts_along_avoidance() {
    // impulse = unit(avoid) * dt / 1e6; avoid is already unit length.
    // 1000 * 500_000 / 1_000_000 = 500.
    let mut dest = Destination(DestinationEnum::Nowhere);
    let act = move_to_destination(
        &mut dest,
        Vec3Fix::new(0, 0, 0),
        Vec3Fix::new(0, 1000, 0),
        &Avoidance { impulse: Vec3Fix::new(-1000, 0, 0) },
        &Movement { speed: 35_000 },
        500_000,
    );
    assert_eq!(act, MoveAction::Thrust(Vec3Fix::new(-500, 0, 0)));
    assert!(matches!(dest.0, DestinationEnum::Nowhere));
}

#[test]
fn idle_ship_without_avoidance_holds() {
    let mut dest = Destination(DestinationEnum::Nowhere);
    let act = move_to_destination(
        &mut dest,
        Vec3Fix::new(0, 0, 0),
        Vec3Fix::new(0, 1000, 0),
        &Avoidance { impulse: Vec3Fix::new(0, 0, 0) },
        &Movement { speed: 35_000 },
        16_000,
    );
    assert_eq!(act, MoveAction::Hold);
}

#[test]
fn cancelled_steering_thrusts_zero() {
    let loc = Vec3Fix::new(0, 10_000, 0);
    let mut dest = Destination(DestinationEnum::Space(loc));
    let act = move_to_destination(
        &mut dest,
        Vec3Fix::new(0, 0, 0),
        Vec3Fix::new(0, 1000, 0),
        &Avoidance { impulse: Vec3Fix::new(0, -1000, 0) },
        &Movement { speed: 35_000 },
        16_000,
    );
    assert_eq!(act, MoveAction::Thrust(Vec3Fix::new(0, 0, 0)));
}

#[test]
fn damping_only_when_idle() {
    assert_eq!(damping_shift(&Destination(DestinationEnum::Nowhere)), 20_000);
    assert_eq!(
        damping_shift(&Destination(DestinationEnum::Space(Vec3Fix::new(1, 2, 3)))),
        0
    );
}

#[test]
fn find_planet_picks_the_first_hit() {
    let planets = vec![
        PlanetAt { id: 1, planet_type: PlanetType::Outpost, pos: Vec3Fix::new(100_000, 0, 0) },
        PlanetAt { id: 2, planet_type: PlanetType::Capital, pos: Vec3Fix::new(5_000, 0, 0) },
        PlanetAt { id: 3, planet_type: PlanetType::Capital, pos: Vec3Fix::new(0, 0, 0) },
    ];
    // The origin is inside both capitals (radius 12_000); the earlier wins.
    assert_eq!(find_planet(&planets, Vec3Fix::new(0, 0, 0)), Some(2));
    // Just outside the outpost's 2_000 radius.
    assert_eq!(find_planet(&planets, Vec3Fix::new(102_000, 0, 0)), None);
    // Just inside it.
    assert_eq!(find_planet(&planets, Vec3Fix::new(101_999, 0, 0)), Some(1));
}

#[test]
fn avoidance_pushes_away_from_first_intersecting_ship() {
    let intersections = vec![(9u64, 5u64, false), (9u64, 6u64, true), (9u64, 7u64, true)];
    let others = vec![(6u64, Vec3Fix::new(2_000, 0, 0)), (7u64, Vec3Fix::new(0, 2_000, 0))];
    let av = collision_avoidance(9, Vec3Fix::new(0, 0, 0), &intersections, &others);
    assert_eq!(av.impulse, Vec3Fix::new(-1000, 0, 0));
}

#[test]
fn avoidance_resets_without_intersections() {
    let av = collision_avoidance(9, Vec3Fix::new(0, 0, 0), &vec![], &vec![]);
    assert_eq!(av.impulse, Vec3Fix::new(0, 0, 0));
}

#[test]
fn avoidance_ignores_non_ships() {
    let intersections = vec![(9u64, 5u64, true)];
    let others = vec![(6u64, Vec3Fix::new(2_000, 0, 0))];
    let av = collision_avoidance(9, Vec3Fix::new(0, 0, 0), &intersections, &others);
    assert_eq!(av.impulse, Vec3Fix::new(0, 0, 0));
}
