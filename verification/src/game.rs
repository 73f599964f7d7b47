//! One step of the simulation: the forces on the lander, its motion, and
//! what becomes of the attempt when the lander comes down.

use crate::collision::{
    check_collision_with_zone_info, landed_zone, landing_outcome, CollisionType,
};
use crate::entity::Entity;
use crate::fixed::{
    add_clamped, clamp_i64, clamp_u64, div_toward_zero, mul_div_clamped, saturate_i64,
};
use crate::input::stop_lander;
use crate::physics::{Physics, RocketEngine};
use crate::session::{completed_attempt, AttemptResult, SessionManager};
use crate::surface::LandingZoneDifficulty;
use crate::vector::Vec2;
use vstd::prelude::*;

verus! {

/// Acceleration of gravity on the moon, in thousandths of a unit per second
/// squared.
pub const ACCEL_GRAV_Y: i64 = 1625;

/// The weight of a mass in grams, in millinewtons: it pulls downward.
pub open spec fn gravity_force(mass: int) -> Vec2 {
    Vec2 { x: 0, y: clamp_i64(-(1625 * mass / 1000)) as i64 }
}

/// A coordinate after `dt` milliseconds at the given velocity, wrapped into
/// the screen's extent.
pub open spec fn advanced(position: int, velocity: int, dt: int, extent: int) -> int {
    clamp_i64(position + clamp_i64(div_toward_zero(velocity * dt, 1000))) % extent
}

/// The motion after one step: gravity and the engine's thrust act on the
/// mass that the lander has before the step's propellant is burned.
pub open spec fn physics_after_tick(p: Physics, rocket: Option<RocketEngine>, dt: u64) -> Physics {
    let weight = (Vec2 { x: 0, y: 0 }).plus(gravity_force(p.mass as int));
    match rocket {
        Some(r) => (Physics {
            mass: r.spec_total_mass() as u64,
            forces: weight.plus(r.thrust_force()),
            ..p
        }).after_step(dt),
        None => (Physics { forces: weight, ..p }).after_step(dt),
    }
}

/// The weight of a mass.
fn weight_of(mass: u64) -> (w: Vec2)
    ensures
        w == gravity_force(mass as int),
{
    let pull: u128 = 1625 * (mass as u128) / 1000;
    Vec2 { x: 0, y: saturate_i64(-(pull as i128)) }
}

/// Moves a coordinate and wraps it into the screen's extent.
fn advance(position: i64, velocity: i64, dt: u64, extent: i64) -> (r: i64)
    requires
        extent > 0,
    ensures
        r == advanced(position as int, velocity as int, dt as int, extent as int),
        0 <= r < extent,
{
    let moved: i64 = add_clamped(position, mul_div_clamped(velocity, dt, 1000));
    match moved.checked_rem_euclid(extent) {
        Some(wrapped) => wrapped,
        None => 0,
    }
}

/// Advances the lander by `dt` milliseconds on a screen of the given size.
///
/// A lander that is down, or has no motion, stays as it is. Otherwise the
/// forces are gathered anew: gravity, and the thrust of the engine, which
/// burns its propellant; the velocity follows the forces, the position
/// follows the velocity and wraps around the screen, and the time of the
/// attempt goes on.
pub fn update_physics(entity: &mut Entity, dt: u64, screen_width: i64, screen_height: i64)
    requires
        screen_width > 0,
        screen_height > 0,
    ensures
        final(entity).terrain == old(entity).terrain,
        final(entity).landing_zones == old(entity).landing_zones,
        final(entity).sound == old(entity).sound,
        final(entity).show_debug_info == old(entity).show_debug_info,
        final(entity).dead == old(entity).dead,
        final(entity).mission_success == old(entity).mission_success,
        final(entity).current_audio == old(entity).current_audio,
        final(entity).transform.size == old(entity).transform.size,
        final(entity).transform.rotation == old(entity).transform.rotation,
        old(entity).dead || old(entity).physics is None ==> {
            &&& final(entity).transform == old(entity).transform
            &&& final(entity).physics == old(entity).physics
            &&& final(entity).rocket_physics == old(entity).rocket_physics
            &&& final(entity).time_elapsed == old(entity).time_elapsed
        },
        !old(entity).dead && old(entity).physics is Some ==> {
            &&& final(entity).physics == Some(
                physics_after_tick(old(entity).physics->0, old(entity).rocket_physics, dt),
            )
            &&& final(entity).rocket_physics == match old(entity).rocket_physics {
                Some(r) => Some(r.after_thrust(dt)),
                None => None,
            }
            &&& final(entity).transform.position.x == advanced(
                old(entity).transform.position.x as int,
                final(entity).physics->0.velocity.x as int,
                dt as int,
                screen_width as int,
            )
            &&& final(entity).transform.position.y == advanced(
                old(entity).transform.position.y as int,
                final(entity).physics->0.velocity.y as int,
                dt as int,
                screen_height as int,
            )
            &&& final(entity).time_elapsed == clamp_u64(old(entity).time_elapsed + dt)
        },
{
    if entity.dead {
        return;
    }
    let mut physics: Physics = match entity.physics {
        Some(p) => p,
        None => {
            return;
        },
    };
    physics.reset_forces();
    physics.add_force(weight_of(physics.mass));
    match entity.rocket_physics {
        Some(rocket) => {
            let mut engine: RocketEngine = rocket;
            physics.mass = engine.total_mass();
            let thrust: Vec2 = engine.generate_thrust(dt);
            physics.add_force(thrust);
            entity.rocket_physics = Some(engine);
        },
        None => {},
    }
    physics.integrate(dt);
    entity.transform.position = Vec2 {
        x: advance(entity.transform.position.x, physics.velocity.x, dt, screen_width),
        y: advance(entity.transform.position.y, physics.velocity.y, dt, screen_height),
    };
    entity.physics = Some(physics);
    entity.time_elapsed = entity.time_elapsed.saturating_add(dt);
}

/// How an attempt that ended with the given outcome is recorded.
pub open spec fn result_of(outcome: CollisionType) -> AttemptResult {
    if outcome == CollisionType::LandingSuccess {
        AttemptResult::Success
    } else {
        AttemptResult::Failure
    }
}

/// The zone that is recorded with an attempt: the zone the lander came down
/// on, but none for a body collision.
pub open spec fn zone_on_record(outcome: CollisionType, zone: Option<LandingZoneDifficulty>) -> Option<
    LandingZoneDifficulty,
> {
    if outcome == CollisionType::BodyCollision {
        None
    } else {
        zone
    }
}

/// The fuel that is recorded with an attempt, in thousandths of a percent.
pub open spec fn fuel_on_record(rocket: Option<RocketEngine>) -> int {
    match rocket {
        Some(r) => r.spec_fuel_percentage(),
        None => 0,
    }
}

/// Looks whether the lander has come down, and ends the attempt if it has.
///
/// While the lander is in flight nothing changes. Once it has hit the
/// terrain it is brought to rest and marked as down, and as landed where the
/// landing succeeded; the attempt is recorded in the session with the fuel
/// left, the zone and the time, as far as the session has a slot left.
pub fn handle_collision(lander: &mut Entity, session_manager: &mut SessionManager) -> (outcome:
    CollisionType)
    ensures
        outcome == landing_outcome(
            old(lander).transform,
            old(lander).terrain@,
            old(lander).landing_zones@,
            match old(lander).physics {
                Some(p) => Some(p.velocity),
                None => None,
            },
        ),
        final(lander).transform == old(lander).transform,
        final(lander).terrain == old(lander).terrain,
        final(lander).landing_zones == old(lander).landing_zones,
        final(lander).time_elapsed == old(lander).time_elapsed,
        final(lander).show_debug_info == old(lander).show_debug_info,
        final(lander).current_audio == old(lander).current_audio,
        outcome == CollisionType::NoCollision ==> {
            &&& final(lander).physics == old(lander).physics
            &&& final(lander).rocket_physics == old(lander).rocket_physics
            &&& final(lander).sound == old(lander).sound
            &&& final(lander).dead == old(lander).dead
            &&& final(lander).mission_success == old(lander).mission_success
            &&& final(session_manager).session@ == old(session_manager).session@
        },
        outcome != CollisionType::NoCollision ==> {
            &&& final(lander).dead
            &&& !final(lander).sound
            &&& final(lander).mission_success == (old(lander).mission_success || outcome
                == CollisionType::LandingSuccess)
            &&& final(lander).physics == match old(lander).physics {
                Some(p) => Some(
                    Physics { velocity: Vec2 { x: 0, y: 0 }, forces: Vec2 { x: 0, y: 0 }, ..p },
                ),
                None => None,
            }
            &&& final(lander).rocket_physics == match old(lander).rocket_physics {
                Some(r) => Some(
                    RocketEngine { thrust_vector: Vec2 { x: 0, y: 0 }, is_thrusting: false, ..r },
                ),
                None => None,
            }
            &&& final(session_manager).session@ == if old(session_manager).session.current_attempt
                < old(session_manager).session.attempts@.len() {
                old(session_manager).session@.recorded(
                    completed_attempt(
                        result_of(outcome),
                        zone_on_record(
                            outcome,
                            landed_zone(
                                old(lander).transform,
                                old(lander).terrain@,
                                old(lander).landing_zones@,
                            ),
                        ),
                        fuel_on_record(old(lander).rocket_physics) as u32,
                        old(lander).time_elapsed,
                    ),
                )
            } else {
                old(session_manager).session@
            }
        },
{
    let (outcome, zone) = check_collision_with_zone_info(lander);
    if outcome == CollisionType::NoCollision {
        return outcome;
    }
    let fuel: u32 = match lander.rocket_physics {
        Some(rocket) => rocket.fuel_percentage(),
        None => 0,
    };
    stop_lander(lander);
    lander.sound = false;
    lander.dead = true;
    let result: AttemptResult = if outcome == CollisionType::LandingSuccess {
        lander.mission_success = true;
        AttemptResult::Success
    } else {
        AttemptResult::Failure
    };
    let recorded_zone: Option<LandingZoneDifficulty> = if outcome == CollisionType::BodyCollision {
        None
    } else {
        zone
    };
    if session_manager.session.current_attempt < session_manager.session.attempts.len() {
        session_manager.complete_attempt(result, fuel, recorded_zone, lander.time_elapsed);
    }
    outcome
}

} // verus!
