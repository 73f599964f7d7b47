use lunar_lander::collision::CollisionType;
use lunar_lander::entity::{AudioTrack, Entity, Transform};
use lunar_lander::game::{handle_collision, update_physics};
use lunar_lander::input::{
    reset_lander, restart_action, select_audio, steer, stop_lander, throttle, AudioCommand,
    RestartAction,
};
use lunar_lander::physics::Physics;
use lunar_lander::session::{AttemptResult, SessionManager};
use lunar_lander::surface::{LandingZone, LandingZoneDifficulty, TerrainError};
use lunar_lander::vector::Vec2;

fn samples(len: usize) -> Vec<i64> {
    (0..len).map(|i| ((i * 37) % 101) as i64 * 1000 + ((i * i) % 7) as i64).collect()
}

#[test]
fn new_lander_is_fuelled_and_at_rest() {
    let lander = Entity::new();
    assert_eq!(lander.transform, Transform { size: Vec2::new(0, 0), position: Vec2::new(0, 0), rotation: 90_000 });
    assert!(lander.terrain.is_empty());
    assert!(lander.landing_zones.is_empty());
    assert_eq!(lander.physics, Some(Physics::new(23_200_000)));
    assert_eq!(lander.rocket_physics.unwrap().total_mass(), 23_200_000);
    assert!(lander.sound);
    assert_eq!(lander.time_elapsed, 0);
    assert!(!lander.show_debug_info);
    assert!(!lander.dead);
    assert!(!lander.mission_success);
    assert_eq!(lander.current_audio, None);
}

#[test]
fn an_attempt_begins_over_fresh_terrain() {
    let mut lander = Entity::new();
    lander.dead = true;
    lander.mission_success = true;
    lander.sound = false;
    lander.time_elapsed = 77;
    lander.current_audio = Some(AudioTrack::Ambient);
    let mut rocket = lander.rocket_physics.unwrap();
    rocket.fuel_mass = 200_000;
    rocket.is_thrusting = true;
    rocket.thrust_vector = Vec2::new(1, 2);
    lander.rocket_physics = Some(rocket);

    let noise = samples(800);
    let r = lander.initialize_with_terrain_and_position(Vec2::new(24_000, 32_000), &noise, 9, 800_000, 600_000);
    assert_eq!(r, Ok(()));
    assert_eq!(lander.terrain.len(), 800);
    assert_eq!(*lander.terrain.iter().min().unwrap(), 60_000);
    assert_eq!(*lander.terrain.iter().max().unwrap(), 100_000);
    assert!(!lander.landing_zones.is_empty() && lander.landing_zones.len() <= 3);
    for z in &lander.landing_zones {
        assert!([36, 45, 54].contains(&z.width_points));
        assert!(z.start >= 100 && z.end + 100 < 800);
    }
    assert_eq!(lander.transform.size, Vec2::new(24_000, 32_000));
    assert_eq!(lander.transform.position, Vec2::new(400_000 - 12_000, 250_000 - 16_000));
    assert_eq!(lander.transform.rotation, 90_000);
    assert_eq!(lander.physics, Some(Physics::new(15_200_000)));
    let rocket = lander.rocket_physics.unwrap();
    assert_eq!(rocket.fuel_mass, 8_200_000);
    assert!(!rocket.is_thrusting);
    assert_eq!(rocket.thrust_vector, Vec2::new(0, 0));
    assert_eq!(lander.time_elapsed, 0);
    assert!(lander.sound);
    assert!(!lander.dead);
    assert!(!lander.mission_success);
    assert_eq!(lander.current_audio, None);

    let terrain = lander.terrain.clone();
    assert_eq!(reset_lander(&mut lander, &noise, 9, 800_000, 600_000), Ok(()));
    assert_eq!(lander.terrain, terrain);
    assert_eq!(lander.physics, Some(Physics::new(23_200_000)));
}

#[test]
fn an_attempt_cannot_begin_without_room_or_width() {
    let mut lander = Entity::new();
    lander.time_elapsed = 5;
    let r = lander.initialize_with_terrain_and_position(Vec2::new(999, 32_000), &samples(800), 9, 800_000, 600_000);
    assert_eq!(r, Err(TerrainError::LanderTooNarrow));
    let r = lander.initialize_with_terrain_and_position(Vec2::new(-24_000, 32_000), &samples(800), 9, 800_000, 600_000);
    assert_eq!(r, Err(TerrainError::LanderTooNarrow));
    let r = lander.initialize_with_terrain_and_position(Vec2::new(24_000, 32_000), &samples(230), 9, 800_000, 600_000);
    assert_eq!(r, Err(TerrainError::TerrainTooShort));
    let r = lander.initialize_with_terrain_and_position(Vec2::new(i64::MAX, 32_000), &samples(800), 9, 800_000, 600_000);
    assert_eq!(r, Err(TerrainError::TerrainTooShort));
    assert_eq!(lander.time_elapsed, 5);
    assert!(lander.terrain.is_empty());
    assert_eq!(lander.transform.size, Vec2::new(0, 0));
    assert_eq!(reset_lander(&mut lander, &samples(800), 9, 800_000, 600_000), Err(TerrainError::LanderTooNarrow));
}

#[test]
fn an_attempt_begins_wherever_the_widest_zone_fits() {
    for seed in 0..200u64 {
        let mut lander = Entity::new();
        lander.dead = true;
        let r = lander.initialize_with_terrain_and_position(Vec2::new(32_000, 32_000), &samples(273), seed, 800_000, 600_000);
        assert_eq!(r, Ok(()));
        assert!(!lander.dead);
        assert_eq!(lander.terrain.len(), 273);
        assert_eq!(reset_lander(&mut lander, &samples(800), seed, 800_000, 600_000), Ok(()));
        assert_eq!(lander.terrain.len(), 800);
        let r = lander.initialize_with_terrain_and_position(Vec2::new(32_000, 32_000), &samples(248), seed, 800_000, 600_000);
        assert_eq!(r, Err(TerrainError::TerrainTooShort));
        assert_eq!(lander.terrain.len(), 800);
    }
    let mut refused = 0;
    for seed in 0..200u64 {
        let mut lander = Entity::new();
        match lander.initialize_with_terrain_and_position(Vec2::new(32_000, 32_000), &samples(260), seed, 800_000, 600_000) {
            Ok(()) => assert!(lander.landing_zones[0].width_points < 72),
            Err(e) => {
                assert_eq!(e, TerrainError::ZoneDoesNotFit);
                refused += 1;
            }
        }
    }
    assert!(refused > 0);
}

#[test]
fn a_step_in_free_fall_follows_gravity() {
    let mut lander = Entity::new();
    lander.transform.position = Vec2::new(100_000, 400_000);
    update_physics(&mut lander, 1000, 800_000, 600_000);
    let physics = lander.physics.unwrap();
    assert_eq!(physics.forces, Vec2::new(0, -37_700_000));
    assert_eq!(physics.velocity, Vec2::new(0, -1_625));
    assert_eq!(physics.mass, 23_200_000);
    assert_eq!(lander.transform.position, Vec2::new(100_000, 398_375));
    assert_eq!(lander.time_elapsed, 1000);
    assert_eq!(lander.rocket_physics.unwrap().fuel_mass, 8_200_000);
    update_physics(&mut lander, 40, 800_000, 600_000);
    assert_eq!(lander.physics.unwrap().velocity, Vec2::new(0, -1_690));
    assert_eq!(lander.transform.position, Vec2::new(100_000, 398_375 - 67));
    assert_eq!(lander.time_elapsed, 1040);
}

#[test]
fn a_step_under_thrust_burns_fuel_and_lifts() {
    let mut lander = Entity::new();
    lander.transform.position = Vec2::new(100_000, 400_000);
    assert!(throttle(&mut lander, true, Vec2::new(0, 150_000_000)));
    update_physics(&mut lander, 1000, 800_000, 600_000);
    let physics = lander.physics.unwrap();
    assert_eq!(physics.forces, Vec2::new(0, 112_300_000));
    assert_eq!(physics.velocity, Vec2::new(0, 4_840));
    assert_eq!(lander.rocket_physics.unwrap().fuel_mass, 8_200_000 - 49_180);
    assert_eq!(lander.transform.position, Vec2::new(100_000, 404_840));
    update_physics(&mut lander, 1000, 800_000, 600_000);
    assert_eq!(lander.physics.unwrap().mass, 23_200_000 - 49_180);
}

#[test]
fn positions_wrap_around_the_screen() {
    let mut lander = Entity::new();
    lander.rocket_physics = None;
    lander.transform.position = Vec2::new(799_000, 1_000);
    lander.physics = Some(Physics { velocity: Vec2::new(2_000, 0), mass: 1_000, forces: Vec2::new(9, 9) });
    update_physics(&mut lander, 1000, 800_000, 600_000);
    assert_eq!(lander.physics.unwrap().velocity, Vec2::new(2_000, -1_625));
    assert_eq!(lander.transform.position, Vec2::new(1_000, 599_375));
    lander.transform.position = Vec2::new(i64::MAX, i64::MIN);
    lander.physics = Some(Physics { velocity: Vec2::new(i64::MAX, i64::MIN), mass: 0, forces: Vec2::new(0, 0) });
    lander.time_elapsed = u64::MAX - 1;
    update_physics(&mut lander, u64::MAX, 800_000, 600_000);
    assert_eq!(lander.transform.position, Vec2::new(i64::MAX % 800_000, i64::MIN.rem_euclid(600_000)));
    assert_eq!(lander.time_elapsed, u64::MAX);
}

#[test]
fn a_lander_that_is_down_or_has_no_motion_stays() {
    let mut lander = Entity::new();
    lander.dead = true;
    lander.transform.position = Vec2::new(5, 6);
    update_physics(&mut lander, 1000, 800_000, 600_000);
    assert_eq!(lander.transform.position, Vec2::new(5, 6));
    assert_eq!(lander.time_elapsed, 0);
    assert_eq!(lander.physics, Some(Physics::new(23_200_000)));
    lander.dead = false;
    lander.physics = None;
    throttle(&mut lander, true, Vec2::new(0, 150_000_000));
    update_physics(&mut lander, 1000, 800_000, 600_000);
    assert_eq!(lander.transform.position, Vec2::new(5, 6));
    assert_eq!(lander.time_elapsed, 0);
    assert_eq!(lander.rocket_physics.unwrap().fuel_mass, 8_200_000);
}

fn lander_over_zone(y: i64, velocity: Vec2) -> Entity {
    let mut lander = Entity::new();
    lander.terrain = vec![50_000; 400];
    lander.terrain[250] = 90_000;
    lander.landing_zones =
        vec![LandingZone { start: 100, end: 140, difficulty: LandingZoneDifficulty::Hard, width_points: 41 }];
    lander.transform = Transform { size: Vec2::new(20_000, 32_000), position: Vec2::new(110_000, y), rotation: 0 };
    lander.physics = Some(Physics { velocity, mass: 23_200_000, forces: Vec2::new(1, 1) });
    lander.time_elapsed = 45_000;
    let mut rocket = lander.rocket_physics.unwrap();
    rocket.fuel_mass = 6_560_000;
    rocket.is_thrusting = true;
    rocket.thrust_vector = Vec2::new(0, 5);
    lander.rocket_physics = Some(rocket);
    lander
}

#[test]
fn a_landing_ends_the_attempt_with_its_score() {
    let mut lander = lander_over_zone(52_000, Vec2::new(0, -3_000));
    let mut manager = SessionManager::new();
    assert_eq!(handle_collision(&mut lander, &mut manager), CollisionType::LandingSuccess);
    assert!(lander.dead);
    assert!(lander.mission_success);
    assert!(!lander.sound);
    assert_eq!(lander.physics, Some(Physics::new(23_200_000)));
    let rocket = lander.rocket_physics.unwrap();
    assert!(!rocket.is_thrusting);
    assert_eq!(rocket.thrust_vector, Vec2::new(0, 0));
    assert_eq!(rocket.fuel_mass, 6_560_000);
    assert_eq!(manager.session.current_attempt, 1);
    let attempt = manager.session.attempts[0];
    assert_eq!(attempt.result, AttemptResult::Success);
    assert_eq!(attempt.fuel_remaining, 80_000);
    assert_eq!(attempt.landing_zone, Some(LandingZoneDifficulty::Hard));
    assert_eq!(attempt.time_taken, 45_000);
    assert_eq!(attempt.score, 4_320_000);
    assert_eq!(manager.session.total_score, 4_320_000);
}

#[test]
fn a_hard_landing_fails_on_its_zone() {
    let mut lander = lander_over_zone(52_000, Vec2::new(0, -10_001));
    let mut manager = SessionManager::new();
    assert_eq!(handle_collision(&mut lander, &mut manager), CollisionType::LegCollision);
    assert!(lander.dead);
    assert!(!lander.mission_success);
    let attempt = manager.session.attempts[0];
    assert_eq!(attempt.result, AttemptResult::Failure);
    assert_eq!(attempt.landing_zone, Some(LandingZoneDifficulty::Hard));
    assert_eq!(attempt.score, 0);
    assert_eq!(attempt.fuel_remaining, 80_000);
}

#[test]
fn a_body_collision_fails_without_a_zone() {
    let mut lander = lander_over_zone(92_000, Vec2::new(0, 0));
    lander.transform.position.x = 240_000;
    lander.rocket_physics = None;
    let mut manager = SessionManager::new();
    assert_eq!(handle_collision(&mut lander, &mut manager), CollisionType::BodyCollision);
    assert!(lander.dead);
    let attempt = manager.session.attempts[0];
    assert_eq!(attempt.result, AttemptResult::Failure);
    assert_eq!(attempt.landing_zone, None);
    assert_eq!(attempt.fuel_remaining, 0);
    assert_eq!(attempt.score, 0);
}

#[test]
fn a_lander_in_flight_changes_nothing() {
    let mut lander = lander_over_zone(53_001, Vec2::new(0, -3_000));
    let mut manager = SessionManager::new();
    assert_eq!(handle_collision(&mut lander, &mut manager), CollisionType::NoCollision);
    assert!(!lander.dead);
    assert!(lander.sound);
    assert!(lander.rocket_physics.unwrap().is_thrusting);
    assert_eq!(lander.physics.unwrap().velocity, Vec2::new(0, -3_000));
    assert_eq!(manager.session.current_attempt, 0);
    assert_eq!(manager.session.total_score, 0);
}

#[test]
fn a_full_session_records_no_further_attempt() {
    let mut manager = SessionManager::new();
    for _ in 0..3 {
        let mut lander = lander_over_zone(52_000, Vec2::new(0, -3_000));
        handle_collision(&mut lander, &mut manager);
    }
    assert!(manager.session.session_complete);
    assert_eq!(manager.session.total_score, 3 * 4_320_000);
    let mut lander = lander_over_zone(52_000, Vec2::new(0, -3_000));
    assert_eq!(handle_collision(&mut lander, &mut manager), CollisionType::LandingSuccess);
    assert!(lander.dead);
    assert_eq!(manager.session.current_attempt, 3);
    assert_eq!(manager.session.total_score, 3 * 4_320_000);
}

#[test]
fn restart_depends_on_session_and_lander() {
    assert_eq!(restart_action(true, true, false), RestartAction::NewSession);
    assert_eq!(restart_action(true, false, true), RestartAction::NewSession);
    assert_eq!(restart_action(false, true, true), RestartAction::NextAttempt);
    assert_eq!(restart_action(false, true, false), RestartAction::NewSession);
    assert_eq!(restart_action(false, false, true), RestartAction::RestartAttempt);
    assert_eq!(restart_action(false, false, false), RestartAction::RestartAttempt);
}

#[test]
fn steering_turns_by_three_degrees_and_wraps() {
    let mut lander = Entity::new();
    steer(&mut lander, false, true);
    assert_eq!(lander.transform.rotation, 93_000);
    steer(&mut lander, true, false);
    steer(&mut lander, true, false);
    assert_eq!(lander.transform.rotation, 87_000);
    steer(&mut lander, true, true);
    assert_eq!(lander.transform.rotation, 87_000);
    steer(&mut lander, false, false);
    assert_eq!(lander.transform.rotation, 87_000);
    lander.transform.rotation = 1_000;
    steer(&mut lander, true, false);
    assert_eq!(lander.transform.rotation, 358_000);
    steer(&mut lander, false, true);
    assert_eq!(lander.transform.rotation, 1_000);
    lander.transform.rotation = -1;
    steer(&mut lander, false, false);
    assert_eq!(lander.transform.rotation, 359_999);
    lander.transform.rotation = i64::MAX;
    lander.transform.rotate(i64::MAX);
    assert_eq!(lander.transform.rotation, ((i64::MAX as i128 * 2) % 360_000) as i64);
}

#[test]
fn the_thrust_key_fires_a_fuelled_engine_of_a_flying_lander() {
    let mut lander = Entity::new();
    assert!(throttle(&mut lander, true, Vec2::new(3, 4)));
    let rocket = lander.rocket_physics.unwrap();
    assert!(rocket.is_thrusting);
    assert_eq!(rocket.thrust_vector, Vec2::new(3, 4));
    assert!(!throttle(&mut lander, false, Vec2::new(3, 4)));
    let rocket = lander.rocket_physics.unwrap();
    assert!(!rocket.is_thrusting);
    assert_eq!(rocket.thrust_vector, Vec2::new(0, 0));
    lander.dead = true;
    assert!(!throttle(&mut lander, true, Vec2::new(3, 4)));
    assert!(!lander.rocket_physics.unwrap().is_thrusting);
    lander.dead = false;
    let mut rocket = lander.rocket_physics.unwrap();
    rocket.fuel_mass = 0;
    lander.rocket_physics = Some(rocket);
    assert!(!throttle(&mut lander, true, Vec2::new(3, 4)));
    lander.rocket_physics = None;
    assert!(!throttle(&mut lander, true, Vec2::new(3, 4)));
    assert_eq!(lander.rocket_physics, None);
}

#[test]
fn the_sound_follows_the_engine() {
    let mut lander = Entity::new();
    assert_eq!(select_audio(&mut lander, true, false), AudioCommand::Switch(AudioTrack::Acceleration));
    assert_eq!(lander.current_audio, Some(AudioTrack::Acceleration));
    assert_eq!(select_audio(&mut lander, true, false), AudioCommand::Keep);
    assert_eq!(select_audio(&mut lander, false, true), AudioCommand::Switch(AudioTrack::Ambient));
    assert_eq!(lander.current_audio, Some(AudioTrack::Ambient));
    assert_eq!(select_audio(&mut lander, false, true), AudioCommand::Keep);
    assert_eq!(select_audio(&mut lander, false, false), AudioCommand::Replay(AudioTrack::Ambient));
    assert_eq!(lander.current_audio, Some(AudioTrack::Ambient));
    lander.sound = false;
    assert_eq!(select_audio(&mut lander, false, true), AudioCommand::Silence);
    assert_eq!(lander.current_audio, None);
    assert_eq!(select_audio(&mut lander, false, true), AudioCommand::Keep);
    assert_eq!(select_audio(&mut lander, true, true), AudioCommand::Switch(AudioTrack::Acceleration));
}

#[test]
fn stopping_the_lander_clears_motion_and_thrust() {
    let mut lander = lander_over_zone(52_000, Vec2::new(7, -3_000));
    stop_lander(&mut lander);
    assert_eq!(lander.physics, Some(Physics::new(23_200_000)));
    assert!(!lander.rocket_physics.unwrap().is_thrusting);
    assert_eq!(lander.rocket_physics.unwrap().thrust_vector, Vec2::new(0, 0));
    assert!(!lander.dead);
    lander.physics = None;
    lander.rocket_physics = None;
    stop_lander(&mut lander);
    assert_eq!(lander.physics, None);
}
