//! Propulsion and motion.
//!
//! Masses are in grams, the exhaust velocity in millimetres per second,
//! forces in millinewtons, velocities in thousandths of a unit per second and
//! time steps in milliseconds.

use crate::fixed::{
    clamp_i64, clamp_u32, clamp_u64, div_toward_zero, lemma_share_bounded, mul_div,
    mul_div_clamped, saturate_u32,
};
use crate::vector::Vec2;
use vstd::prelude::*;

verus! {

/// A rocket engine and the propellant it burns.
#[derive(Debug, Clone, Copy, PartialEq, Eq, Structural)]
pub struct RocketEngine {
    /// Mass without propellant, in grams.
    pub dry_mass: u64,
    /// Propellant on board, in grams.
    pub fuel_mass: u64,
    /// Propellant capacity, in grams.
    pub max_fuel_mass: u64,
    /// Effective exhaust velocity, in millimetres per second.
    pub exhaust_velocity: u64,
    /// Largest thrust the engine delivers, in millinewtons.
    pub max_thrust: u64,
    /// Thrust asked for, in millinewtons.
    pub thrust_vector: Vec2,
    /// Whether the engine is firing.
    pub is_thrusting: bool,
}

/// Propellant burned in `dt` milliseconds at the given thrust: thrust over
/// exhaust velocity is the mass flow. An engine without exhaust velocity
/// burns all it has, and no engine burns more than is available.
pub open spec fn fuel_burned(thrust: int, dt: int, exhaust_velocity: int, available: int) -> int {
    if exhaust_velocity == 0 {
        available
    } else if thrust * dt / exhaust_velocity > available {
        available
    } else {
        thrust * dt / exhaust_velocity
    }
}

impl RocketEngine {
    /// Whether the propellant on board is within the capacity.
    pub open spec fn wf(self) -> bool {
        self.fuel_mass <= self.max_fuel_mass
    }

    /// Dry mass and propellant together, clamped into `u64`.
    pub open spec fn spec_total_mass(self) -> int {
        clamp_u64(self.dry_mass + self.fuel_mass)
    }

    /// Propellant on board in thousandths of a percent of the capacity,
    /// rounded down; zero for an engine without capacity.
    pub open spec fn spec_fuel_percentage(self) -> int {
        if self.max_fuel_mass == 0 {
            0
        } else {
            clamp_u32(self.fuel_mass * 100_000 / (self.max_fuel_mass as int))
        }
    }

    /// The thrust that is paid for in propellant: what is asked for, limited
    /// to what the engine delivers.
    pub open spec fn effective_thrust(self) -> int {
        if self.thrust_vector.magnitude() <= self.max_thrust {
            self.thrust_vector.magnitude() as int
        } else {
            self.max_thrust as int
        }
    }

    /// Whether a call of `generate_thrust` delivers thrust: the engine is
    /// firing, has propellant, and the thrust it can pay for is not zero.
    pub open spec fn burns(self) -> bool {
        self.is_thrusting && self.fuel_mass > 0 && self.effective_thrust() > 0
    }

    /// The engine after `dt` milliseconds of `generate_thrust`.
    pub open spec fn after_thrust(self, dt: u64) -> RocketEngine {
        if !self.is_thrusting || self.fuel_mass == 0 {
            RocketEngine { thrust_vector: Vec2 { x: 0, y: 0 }, ..self }
        } else if self.burns() {
            RocketEngine {
                fuel_mass: (self.fuel_mass - fuel_burned(
                    self.effective_thrust(),
                    dt as int,
                    self.exhaust_velocity as int,
                    self.fuel_mass as int,
                )) as u64,
                ..self
            }
        } else {
            self
        }
    }

    /// The force that `generate_thrust` returns.
    pub open spec fn thrust_force(self) -> Vec2 {
        if self.burns() {
            self.thrust_vector
        } else {
            Vec2 { x: 0, y: 0 }
        }
    }

    /// The engine of the Apollo lunar module with full tanks, at rest: 15 t
    /// dry, 8.2 t of propellant, 3050 m/s exhaust velocity and 150 kN of
    /// thrust.
    pub open spec fn apollo_lm() -> RocketEngine {
        RocketEngine {
            dry_mass: 15_000_000,
            fuel_mass: 8_200_000,
            max_fuel_mass: 8_200_000,
            exhaust_velocity: 3_050_000,
            max_thrust: 150_000_000,
            thrust_vector: Vec2 { x: 0, y: 0 },
            is_thrusting: false,
        }
    }

    /// An engine after the Apollo lunar module, with full tanks and at rest.
    pub fn new_apollo_lm() -> (e: RocketEngine)
        ensures
            e == RocketEngine::apollo_lm(),
            e.wf(),
    {
        RocketEngine {
            dry_mass: 15_000_000,
            fuel_mass: 8_200_000,
            max_fuel_mass: 8_200_000,
            exhaust_velocity: 3_050_000,
            max_thrust: 150_000_000,
            thrust_vector: Vec2::zero(),
            is_thrusting: false,
        }
    }

    /// Dry mass and propellant together, in grams.
    pub fn total_mass(&self) -> (m: u64)
        ensures
            m == self.spec_total_mass(),
    {
        self.dry_mass.saturating_add(self.fuel_mass)
    }

    /// Propellant on board in thousandths of a percent of the capacity.
    pub fn fuel_percentage(&self) -> (p: u32)
        ensures
            p == self.spec_fuel_percentage(),
            self.wf() ==> p <= 100_000,
    {
        if self.max_fuel_mass == 0 {
            return 0;
        }
        proof {
            if self.wf() {
                lemma_share_bounded(
                    self.fuel_mass as int,
                    self.max_fuel_mass as int,
                    100_000,
                );
            }
        }
        saturate_u32(mul_div(self.fuel_mass, 100_000, self.max_fuel_mass))
    }

    /// Whether any propellant is left.
    pub fn has_fuel(&self) -> (b: bool)
        ensures
            b == (self.fuel_mass > 0),
    {
        self.fuel_mass > 0
    }

    /// Fills the tank.
    pub fn refuel(&mut self)
        ensures
            *final(self) == (RocketEngine { fuel_mass: old(self).max_fuel_mass, ..*old(self) }),
            final(self).wf(),
    {
        self.fuel_mass = self.max_fuel_mass;
    }

    /// Stops the engine and clears the thrust asked for.
    pub fn stop_thrust(&mut self)
        ensures
            *final(self) == (RocketEngine {
                thrust_vector: Vec2 { x: 0, y: 0 },
                is_thrusting: false,
                ..*old(self)
            }),
    {
        self.thrust_vector = Vec2::zero();
        self.is_thrusting = false;
    }

    /// Fires the engine for `dt` milliseconds and returns the force it
    /// delivers.
    ///
    /// An engine that is not firing, or is out of propellant, delivers no
    /// force and has its thrust cleared. Otherwise the propellant burned is
    /// the mass flow of the thrust asked for, limited to the engine's
    /// largest thrust, over the time step; the force returned is the thrust
    /// asked for.
    pub fn generate_thrust(&mut self, dt: u64) -> (force: Vec2)
        ensures
            *final(self) == old(self).after_thrust(dt),
            force == old(self).thrust_force(),
            final(self).fuel_mass <= old(self).fuel_mass,
            old(self).wf() ==> final(self).wf(),
    {
        if !self.is_thrusting || self.fuel_mass == 0 {
            self.thrust_vector = Vec2::zero();
            return Vec2::zero();
        }
        let asked: u64 = self.thrust_vector.length();
        let thrust: u64 = if asked <= self.max_thrust {
            asked
        } else {
            self.max_thrust
        };
        if thrust > 0 {
            let burned: u64 = if self.exhaust_velocity == 0 {
                self.fuel_mass
            } else {
                let wanted: u128 = mul_div(thrust, dt, self.exhaust_velocity);
                if wanted > self.fuel_mass as u128 {
                    self.fuel_mass
                } else {
                    wanted as u64
                }
            };
            self.fuel_mass = self.fuel_mass - burned;
            self.thrust_vector
        } else {
            Vec2::zero()
        }
    }
}

/// Firing the engine never adds propellant, and propellant never falls
/// below zero.
pub proof fn lemma_thrust_never_adds_fuel(engine: RocketEngine, dt: u64)
    ensures
        0 <= engine.after_thrust(dt).fuel_mass <= engine.fuel_mass,
{
}

/// One burn: the thrust asked for and the time it is held, in milliseconds.
pub struct Burn {
    pub thrust: Vec2,
    pub dt: u64,
}

/// The engine after a series of burns, each made with the engine firing.
pub open spec fn after_burns(engine: RocketEngine, burns: Seq<Burn>) -> RocketEngine
    decreases burns.len(),
{
    if burns.len() == 0 {
        engine
    } else {
        let before = after_burns(engine, burns.drop_last());
        (RocketEngine { thrust_vector: burns.last().thrust, is_thrusting: true, ..before }).after_thrust(
            burns.last().dt,
        )
    }
}

/// Over any series of burns the propellant only goes down: after more burns
/// there is no more of it than after fewer, and never less than none.
pub proof fn lemma_fuel_never_increases(engine: RocketEngine, burns: Seq<Burn>, fewer: int)
    requires
        0 <= fewer <= burns.len(),
    ensures
        0 <= after_burns(engine, burns).fuel_mass <= after_burns(engine, burns.take(fewer)).fuel_mass,
        after_burns(engine, burns.take(fewer)).fuel_mass <= engine.fuel_mass,
    decreases burns.len(),
{
    if burns.len() == 0 {
        assert(burns.take(fewer) =~= burns);
    } else if fewer == burns.len() {
        assert(burns.take(fewer) =~= burns);
        lemma_fuel_never_increases(engine, burns.drop_last(), burns.len() - 1);
        assert(burns.drop_last().take(burns.len() - 1) =~= burns.drop_last());
    } else {
        lemma_fuel_never_increases(engine, burns.drop_last(), fewer);
        assert(burns.drop_last().take(fewer) =~= burns.take(fewer));
    }
}

/// The motion of a body under forces.
#[derive(Debug, Clone, Copy, PartialEq, Eq, Structural)]
pub struct Physics {
    /// Velocity, in thousandths of a unit per second.
    pub velocity: Vec2,
    /// Mass, in grams.
    pub mass: u64,
    /// The forces gathered for the current step, in millinewtons.
    pub forces: Vec2,
}

/// The change of one velocity component that a force causes on a mass in
/// `dt` milliseconds: force times time over mass, rounded toward zero and
/// clamped into `i64`.
pub open spec fn velocity_gain(force: int, dt: int, mass: int) -> int {
    clamp_i64(div_toward_zero(force * dt, mass))
}

impl Physics {
    /// The body after the gathered forces have acted for `dt` milliseconds.
    /// A body without mass does not move.
    pub open spec fn after_step(self, dt: u64) -> Physics {
        if self.mass > 0 {
            Physics {
                velocity: self.velocity.plus(
                    Vec2 {
                        x: velocity_gain(self.forces.x as int, dt as int, self.mass as int) as i64,
                        y: velocity_gain(self.forces.y as int, dt as int, self.mass as int) as i64,
                    },
                ),
                ..self
            }
        } else {
            self
        }
    }

    /// A body of the given mass at rest, with no force on it.
    pub fn new(mass: u64) -> (p: Physics)
        ensures
            p == (Physics { velocity: Vec2 { x: 0, y: 0 }, mass, forces: Vec2 { x: 0, y: 0 } }),
    {
        Physics { velocity: Vec2::zero(), mass, forces: Vec2::zero() }
    }

    /// Clears the gathered forces.
    pub fn reset_forces(&mut self)
        ensures
            *final(self) == (Physics { forces: Vec2 { x: 0, y: 0 }, ..*old(self) }),
    {
        self.forces = Vec2::zero();
    }

    /// Adds a force to those gathered for the current step.
    pub fn add_force(&mut self, force: Vec2)
        ensures
            *final(self) == (Physics { forces: old(self).forces.plus(force), ..*old(self) }),
    {
        self.forces = self.forces.saturating_add(force);
    }

    /// Lets the gathered forces act on the velocity for `dt` milliseconds.
    pub fn integrate(&mut self, dt: u64)
        ensures
            *final(self) == old(self).after_step(dt),
    {
        if self.mass > 0 {
            let gain: Vec2 = Vec2::new(
                mul_div_clamped(self.forces.x, dt, self.mass),
                mul_div_clamped(self.forces.y, dt, self.mass),
            );
            self.velocity = self.velocity.saturating_add(gain);
        }
    }
}

} // verus!
