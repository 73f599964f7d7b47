use lunar_lander::fixed::isqrt;
use lunar_lander::physics::{Physics, RocketEngine};
use lunar_lander::vector::Vec2;

#[test]
fn test_apollo_lm_specs() {
    let rocket = RocketEngine::new_apollo_lm();
    assert_eq!(rocket.dry_mass, 15_000_000);
    assert_eq!(rocket.fuel_mass, 8_200_000);
    assert_eq!(rocket.total_mass(), 23_200_000);
    assert_eq!(rocket.fuel_percentage(), 100_000);
}

#[test]
fn test_fuel_consumption() {
    let mut rocket = RocketEngine::new_apollo_lm();
    let mut physics = Physics::new(rocket.total_mass());

    rocket.is_thrusting = true;
    rocket.thrust_vector = Vec2::new(0, rocket.max_thrust as i64);

    let initial_fuel = rocket.fuel_mass;
    let thrust_force = rocket.generate_thrust(1000);

    assert!(rocket.fuel_mass < initial_fuel, "Fuel should be consumed during thrust");
    assert!(thrust_force.length() > 0, "Should generate thrust force");

    physics.add_force(thrust_force);
    physics.integrate(1000);
    assert!(physics.velocity.length() > 0, "Should have velocity from thrust");
}

#[test]
fn one_second_of_full_thrust_burns_the_mass_flow() {
    let mut rocket = RocketEngine::new_apollo_lm();
    rocket.is_thrusting = true;
    rocket.thrust_vector = Vec2::new(0, 150_000_000);
    let force = rocket.generate_thrust(1000);
    assert_eq!(force, Vec2::new(0, 150_000_000));
    assert_eq!(rocket.fuel_mass, 8_200_000 - 49_180);
    assert_eq!(rocket.thrust_vector, Vec2::new(0, 150_000_000));
    assert!(rocket.is_thrusting);
}

#[test]
fn thrust_beyond_the_engine_is_paid_at_the_engine_limit() {
    let mut rocket = RocketEngine::new_apollo_lm();
    rocket.is_thrusting = true;
    rocket.thrust_vector = Vec2::new(300_000_000, 400_000_000);
    let force = rocket.generate_thrust(1000);
    assert_eq!(force, Vec2::new(300_000_000, 400_000_000));
    assert_eq!(rocket.fuel_mass, 8_200_000 - 49_180);
}

#[test]
fn engine_that_is_off_or_dry_gives_no_force() {
    let mut rocket = RocketEngine::new_apollo_lm();
    rocket.thrust_vector = Vec2::new(0, 150_000_000);
    assert_eq!(rocket.generate_thrust(1000), Vec2::new(0, 0));
    assert_eq!(rocket.fuel_mass, 8_200_000);
    assert_eq!(rocket.thrust_vector, Vec2::new(0, 0));

    rocket.is_thrusting = true;
    rocket.thrust_vector = Vec2::new(0, 150_000_000);
    rocket.fuel_mass = 0;
    assert_eq!(rocket.generate_thrust(1000), Vec2::new(0, 0));
    assert_eq!(rocket.fuel_mass, 0);
    assert_eq!(rocket.thrust_vector, Vec2::new(0, 0));
    assert!(rocket.is_thrusting);

    let mut rocket = RocketEngine::new_apollo_lm();
    rocket.is_thrusting = true;
    assert_eq!(rocket.generate_thrust(1000), Vec2::new(0, 0));
    assert_eq!(rocket.fuel_mass, 8_200_000);

    rocket.thrust_vector = Vec2::new(0, 1_000);
    rocket.max_thrust = 0;
    assert_eq!(rocket.generate_thrust(1000), Vec2::new(0, 0));
    assert_eq!(rocket.fuel_mass, 8_200_000);
}

#[test]
fn fuel_is_floored_at_zero() {
    let mut rocket = RocketEngine::new_apollo_lm();
    rocket.is_thrusting = true;
    rocket.thrust_vector = Vec2::new(0, 150_000_000);
    rocket.fuel_mass = 10_000;
    let force = rocket.generate_thrust(1000);
    assert_eq!(force, Vec2::new(0, 150_000_000));
    assert_eq!(rocket.fuel_mass, 0);

    let mut rocket = RocketEngine::new_apollo_lm();
    rocket.is_thrusting = true;
    rocket.thrust_vector = Vec2::new(1, 0);
    rocket.exhaust_velocity = 0;
    rocket.generate_thrust(0);
    assert_eq!(rocket.fuel_mass, 0);

    let mut rocket = RocketEngine::new_apollo_lm();
    rocket.is_thrusting = true;
    rocket.thrust_vector = Vec2::new(i64::MIN, i64::MAX);
    rocket.max_thrust = u64::MAX;
    rocket.exhaust_velocity = 1;
    rocket.generate_thrust(u64::MAX);
    assert_eq!(rocket.fuel_mass, 0);
}

#[test]
fn fuel_never_increases_over_many_burns() {
    let mut rocket = RocketEngine::new_apollo_lm();
    let mut last = rocket.fuel_mass;
    let thrusts = [150_000_000i64, 0, 75_000_000, -150_000_000, 1, 999_999_999];
    for step in 0..400u64 {
        rocket.is_thrusting = true;
        rocket.thrust_vector = Vec2::new(thrusts[(step % 6) as usize], thrusts[((step / 6) % 6) as usize]);
        rocket.generate_thrust(step * 7 % 2000);
        assert!(rocket.fuel_mass <= last);
        assert!(rocket.fuel_mass <= rocket.max_fuel_mass);
        last = rocket.fuel_mass;
    }
    assert_eq!(last, 0);
}

#[test]
fn fuel_percentage_rounds_down_and_survives_odd_tanks() {
    let mut rocket = RocketEngine::new_apollo_lm();
    rocket.fuel_mass = 4_100_000;
    assert_eq!(rocket.fuel_percentage(), 50_000);
    rocket.fuel_mass = 1;
    assert_eq!(rocket.fuel_percentage(), 0);
    rocket.fuel_mass = 82;
    assert_eq!(rocket.fuel_percentage(), 1);
    rocket.max_fuel_mass = 0;
    assert_eq!(rocket.fuel_percentage(), 0);
    rocket.max_fuel_mass = 1;
    rocket.fuel_mass = u64::MAX;
    assert_eq!(rocket.fuel_percentage(), u32::MAX);
    rocket.dry_mass = u64::MAX;
    assert_eq!(rocket.total_mass(), u64::MAX);
}

#[test]
fn refuel_and_stop() {
    let mut rocket = RocketEngine::new_apollo_lm();
    rocket.fuel_mass = 5;
    rocket.is_thrusting = true;
    rocket.thrust_vector = Vec2::new(3, 4);
    assert!(rocket.has_fuel());
    rocket.stop_thrust();
    assert!(!rocket.is_thrusting);
    assert_eq!(rocket.thrust_vector, Vec2::new(0, 0));
    assert_eq!(rocket.fuel_mass, 5);
    rocket.refuel();
    assert_eq!(rocket.fuel_mass, 8_200_000);
    rocket.fuel_mass = 0;
    assert!(!rocket.has_fuel());
}

#[test]
fn integrate_applies_force_over_mass_and_time() {
    let mut physics = Physics::new(23_200_000);
    physics.add_force(Vec2::new(0, -37_700_000));
    physics.add_force(Vec2::new(0, 150_000_000));
    assert_eq!(physics.forces, Vec2::new(0, 112_300_000));
    physics.integrate(1000);
    assert_eq!(physics.velocity, Vec2::new(0, 4_840));
    physics.integrate(500);
    assert_eq!(physics.velocity, Vec2::new(0, 4_840 + 2_420));
    physics.reset_forces();
    assert_eq!(physics.forces, Vec2::new(0, 0));
    physics.integrate(1000);
    assert_eq!(physics.velocity, Vec2::new(0, 7_260));
}

#[test]
fn integrate_rounds_toward_zero_and_clamps() {
    let mut physics = Physics::new(3);
    physics.add_force(Vec2::new(-5, 5));
    physics.integrate(1);
    assert_eq!(physics.velocity, Vec2::new(-1, 1));

    let mut physics = Physics::new(0);
    physics.add_force(Vec2::new(7, 7));
    physics.integrate(1000);
    assert_eq!(physics.velocity, Vec2::new(0, 0));

    let mut physics = Physics::new(1);
    physics.add_force(Vec2::new(i64::MAX, i64::MIN));
    physics.add_force(Vec2::new(i64::MAX, i64::MIN));
    assert_eq!(physics.forces, Vec2::new(i64::MAX, i64::MIN));
    physics.integrate(u64::MAX);
    assert_eq!(physics.velocity, Vec2::new(i64::MAX, i64::MIN));
    physics.integrate(u64::MAX);
    assert_eq!(physics.velocity, Vec2::new(i64::MAX, i64::MIN));
}

#[test]
fn length_is_the_integer_square_root() {
    assert_eq!(Vec2::new(3, 4).length(), 5);
    assert_eq!(Vec2::new(-3_000, 4_000).length(), 5_000);
    assert_eq!(Vec2::new(1, 1).length(), 1);
    assert_eq!(Vec2::new(0, 0).length(), 0);
    assert_eq!(Vec2::new(0, i64::MIN).length(), 1u64 << 63);
    assert_eq!(Vec2::new(i64::MIN, i64::MIN).length(), 13_043_817_825_332_782_212);
    assert_eq!(Vec2::new(3, 4).squared_length(), 25);
    assert_eq!(isqrt(0), 0);
    assert_eq!(isqrt(99), 9);
    assert_eq!(isqrt(100), 10);
    assert_eq!(isqrt(u128::MAX), u64::MAX);
    assert_eq!(Vec2::new(i64::MAX, 1).saturating_add(Vec2::new(1, -3)), Vec2::new(i64::MAX, -2));
}
