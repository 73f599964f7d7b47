//! The lander: its pose, its terrain and zones, and its physical state.

use crate::fixed::{clamp_i64, div_toward_zero, saturate_i64};
use crate::physics::{Physics, RocketEngine};
use crate::profile::{flattened, normalized};
use crate::surface::{
    generate_terrain_with_multiple_landing_zones, is_zone_set, spec_zone_width, zone_fits,
    LandingZone, LandingZoneDifficulty, TerrainError,
};
use crate::utils::{screen_position, transform_axes};
use crate::vector::Vec2;
use vstd::prelude::*;

verus! {

/// A full turn, in thousandths of a degree.
pub const FULL_CIRCLE: i64 = 360_000;

/// An angle brought into the range from zero up to a full turn.
pub open spec fn normalized_angle(angle: int) -> int {
    angle % (FULL_CIRCLE as int)
}

/// Where the lander is and how it is turned.
///
/// Sizes and positions are in thousandths of a terrain point; the position
/// is that of the lander's lower left corner, with heights growing upward.
/// The rotation is in thousandths of a degree from the vertical.
#[derive(Debug, Clone, Copy, PartialEq, Eq, Structural)]
pub struct Transform {
    pub size: Vec2,
    pub position: Vec2,
    pub rotation: i64,
}

impl Transform {
    /// Whether the rotation lies in the range from zero up to a full turn.
    pub open spec fn wf(self) -> bool {
        0 <= self.rotation < FULL_CIRCLE
    }

    /// Turns the lander by `delta` thousandths of a degree and brings the
    /// rotation back into the range from zero up to a full turn.
    pub fn rotate(&mut self, delta: i64)
        ensures
            *final(self) == (Transform {
                rotation: normalized_angle(old(self).rotation + delta) as i64,
                ..*old(self)
            }),
            final(self).wf(),
    {
        let turned: i128 = self.rotation as i128 + delta as i128;
        let wrapped: i128 = match turned.checked_rem_euclid(FULL_CIRCLE as i128) {
            Some(w) => w,
            None => 0,
        };
        self.rotation = wrapped as i64;
    }
}

/// The sound that is playing.
#[derive(Debug, Clone, Copy, PartialEq, Eq, Structural)]
pub enum AudioTrack {
    Ambient,
    Acceleration,
}

/// The lander with all that belongs to one attempt.
#[derive(Debug, Clone)]
pub struct Entity {
    pub transform: Transform,
    /// One height per terrain point, in thousandths of a unit.
    pub terrain: Vec<i64>,
    pub landing_zones: Vec<LandingZone>,
    pub physics: Option<Physics>,
    pub rocket_physics: Option<RocketEngine>,
    pub sound: bool,
    /// Time since the attempt began, in milliseconds.
    pub time_elapsed: u64,
    pub show_debug_info: bool,
    pub dead: bool,
    pub mission_success: bool,
    pub current_audio: Option<AudioTrack>,
}

/// Mass of the fuelled lander, in grams.
pub const LANDER_MASS: u64 = 23_200_000;

impl Entity {
    /// A lander at rest, a quarter turn from the vertical, fuelled, with no
    /// terrain yet.
    pub fn new() -> (e: Entity)
        ensures
            e.transform == (Transform {
                size: Vec2 { x: 0, y: 0 },
                position: Vec2 { x: 0, y: 0 },
                rotation: 90_000,
            }),
            e.terrain@.len() == 0,
            e.landing_zones@.len() == 0,
            e.physics == Some(
                Physics { velocity: Vec2 { x: 0, y: 0 }, mass: LANDER_MASS, forces: Vec2 { x: 0, y: 0 } },
            ),
            e.rocket_physics == Some(RocketEngine::apollo_lm()),
            e.sound,
            e.time_elapsed == 0,
            !e.show_debug_info,
            !e.dead,
            !e.mission_success,
            e.current_audio is None,
    {
        Entity {
            transform: Transform { size: Vec2::zero(), position: Vec2::zero(), rotation: 90_000 },
            terrain: Vec::new(),
            landing_zones: Vec::new(),
            physics: Some(Physics::new(LANDER_MASS)),
            rocket_physics: Some(RocketEngine::new_apollo_lm()),
            sound: true,
            time_elapsed: 0,
            show_debug_info: false,
            dead: false,
            mission_success: false,
            current_audio: None,
        }
    }
}


/// Lowest height of generated terrain before it is raised, in thousandths.
pub const TERRAIN_MIN_HEIGHT: i64 = 0;

/// Highest height of generated terrain before it is raised, in thousandths.
pub const TERRAIN_MAX_HEIGHT: i64 = 100_000;

/// Height of the lander's centre at the start of an attempt, in thousandths.
pub const START_HEIGHT: i64 = 50_000;

/// The height on screen of a generated height: two fifths of it, raised by
/// sixty units.
pub open spec fn ground_height(h: int) -> int {
    h * 2 / 5 + 60_000
}

/// Width in terrain points of the landing spot for a lander of the given
/// size: one and a half times the lander's width in whole points.
pub open spec fn landing_spot_points(size: Vec2) -> int {
    if size.x < 1000 {
        0
    } else {
        (size.x / 1000) * 3 / 2
    }
}

/// Whether an attempt is sure to begin over `num_points` terrain points with
/// a lander of the given size: the lander is at least one point wide, and
/// the widest zone for its landing spot fits between the edge margins.
pub open spec fn attempt_is_owed(size: Vec2, num_points: int) -> bool {
    &&& landing_spot_points(size) > 0
    &&& zone_fits(
        num_points,
        spec_zone_width(landing_spot_points(size), LandingZoneDifficulty::Easy),
    )
}

/// Whether `e` is the error that an attempt fails with, as far as the size
/// and the number of terrain points decide it: a lander under one point wide
/// is too narrow; otherwise the terrain is too short where not even the
/// narrowest zone for the landing spot fits; and only otherwise may the zone
/// that was drawn fail to fit.
pub open spec fn is_error_of_attempt(e: TerrainError, size: Vec2, num_points: int) -> bool {
    &&& e == TerrainError::LanderTooNarrow <==> landing_spot_points(size) == 0
    &&& e == TerrainError::TerrainTooShort <==> landing_spot_points(size) > 0 && !zone_fits(
        num_points,
        landing_spot_points(size),
    )
    &&& e == TerrainError::ZoneDoesNotFit ==> !attempt_is_owed(size, num_points)
}

/// Position of the lower left corner of a lander of the given size whose
/// centre is at the start height above the middle of the screen.
pub open spec fn start_position(size: Vec2, screen_width: int, screen_height: int) -> Vec2 {
    let centre = screen_position(Vec2 { x: 0, y: START_HEIGHT }, screen_width, screen_height);
    Vec2 {
        x: clamp_i64(centre.x - div_toward_zero(size.x as int, 2)) as i64,
        y: clamp_i64(centre.y - div_toward_zero(size.y as int, 2)) as i64,
    }
}

impl Entity {
    /// Mass that the motion starts with: that of the lander as it is
    /// fuelled, or of the fuelled lunar module where there is no engine.
    pub open spec fn starting_mass(self) -> int {
        match self.rocket_physics {
            Some(rocket) => rocket.spec_total_mass(),
            None => LANDER_MASS as int,
        }
    }

    /// Whether this lander is `before` at the start of a new attempt with
    /// the given size, over terrain generated from the given samples: the
    /// zones are a zone set for a landing spot of the lander's size, the
    /// terrain is the samples with the zones flattened, scaled and raised,
    /// the lander stands above the middle of the screen, the motion is at
    /// rest with the lander's mass, the engine is fuelled and stopped, and
    /// the flags of the attempt are cleared.
    pub open spec fn is_start_of_attempt(
        self,
        before: Entity,
        size: Vec2,
        samples: Seq<i64>,
        screen_width: int,
        screen_height: int,
    ) -> bool {
        &&& landing_spot_points(size) > 0
        &&& is_zone_set(self.landing_zones@, samples.len() as int, landing_spot_points(size))
        &&& self.terrain@.len() == samples.len()
        &&& forall|i: int|
            0 <= i < samples.len() ==> #[trigger] self.terrain@[i] == ground_height(
                normalized(
                    flattened(samples, self.landing_zones@),
                    TERRAIN_MIN_HEIGHT as int,
                    TERRAIN_MAX_HEIGHT as int,
                )[i],
            )
        &&& self.transform == (Transform {
            size,
            position: start_position(size, screen_width, screen_height),
            rotation: before.transform.rotation,
        })
        &&& self.physics == Some(
            Physics {
                velocity: Vec2 { x: 0, y: 0 },
                mass: before.starting_mass() as u64,
                forces: Vec2 { x: 0, y: 0 },
            },
        )
        &&& self.rocket_physics == match before.rocket_physics {
            Some(rocket) => Some(
                RocketEngine {
                    fuel_mass: rocket.max_fuel_mass,
                    thrust_vector: Vec2 { x: 0, y: 0 },
                    is_thrusting: false,
                    ..rocket
                },
            ),
            None => None,
        }
        &&& self.time_elapsed == 0
        &&& self.sound
        &&& !self.dead
        &&& !self.mission_success
        &&& self.current_audio is None
        &&& self.show_debug_info == before.show_debug_info
    }

    /// Begins an attempt: generates terrain from the noise samples and the
    /// seed, puts the lander above the middle of the screen, and brings
    /// motion, engine and flags back to their start.
    ///
    /// The landing zones are generated for a lander one and a half times as
    /// wide as this one. The attempt begins wherever the widest zone for
    /// that landing spot fits the terrain. Where the terrain cannot be
    /// generated the lander is left as it was.
    pub fn initialize_with_terrain_and_position(
        &mut self,
        lander_texture_size: Vec2,
        samples: &Vec<i64>,
        seed: u64,
        screen_width: i64,
        screen_height: i64,
    ) -> (r: Result<(), TerrainError>)
        ensures
            match r {
                Ok(()) => final(self).is_start_of_attempt(
                    *old(self),
                    lander_texture_size,
                    samples@,
                    screen_width as int,
                    screen_height as int,
                ),
                Err(e) => {
                    &&& *final(self) == *old(self)
                    &&& is_error_of_attempt(e, lander_texture_size, samples@.len() as int)
                },
            },
            attempt_is_owed(lander_texture_size, samples@.len() as int) ==> r is Ok,
            landing_spot_points(lander_texture_size) == 0 || !zone_fits(
                samples@.len() as int,
                landing_spot_points(lander_texture_size),
            ) ==> r is Err,
    {
        if lander_texture_size.x < 1000 {
            return Err(TerrainError::LanderTooNarrow);
        }
        let lander_points: u64 = (lander_texture_size.x / 1000) as u64;
        let spot_points: u64 = lander_points * 3 / 2;
        let num_points: usize = samples.len();
        if spot_points > num_points as u64 {
            return Err(TerrainError::TerrainTooShort);
        }
        let (generated, zones) = match generate_terrain_with_multiple_landing_zones(
            samples,
            TERRAIN_MIN_HEIGHT,
            TERRAIN_MAX_HEIGHT,
            spot_points as usize,
            seed,
        ) {
            Ok(pair) => pair,
            Err(e) => {
                return Err(e);
            },
        };
        let mut terrain: Vec<i64> = Vec::with_capacity(generated.len());
        let mut i: usize = 0;
        while i < generated.len()
            invariant
                i <= generated.len(),
                terrain@.len() == i,
                forall|m: int|
                    0 <= m < generated@.len() ==> TERRAIN_MIN_HEIGHT <= #[trigger] generated@[m]
                        <= TERRAIN_MAX_HEIGHT,
                forall|m: int| 0 <= m < i ==> #[trigger] terrain@[m] == ground_height(generated@[m] as int),
            decreases generated.len() - i,
        {
            terrain.push(generated[i] * 2 / 5 + 60_000);
            i += 1;
        }
        self.terrain = terrain;
        self.landing_zones = zones;
        self.transform.size = lander_texture_size;
        let centre: Vec2 = transform_axes(Vec2::new(0, START_HEIGHT), screen_width, screen_height);
        self.transform.position = Vec2::new(
            saturate_i64(centre.x as i128 - (lander_texture_size.x / 2) as i128),
            saturate_i64(centre.y as i128 - (lander_texture_size.y / 2) as i128),
        );
        let mass: u64 = match self.rocket_physics {
            Some(rocket) => rocket.total_mass(),
            None => LANDER_MASS,
        };
        self.physics = Some(Physics::new(mass));
        match self.rocket_physics {
            Some(rocket) => {
                let mut engine: RocketEngine = rocket;
                engine.refuel();
                engine.stop_thrust();
                self.rocket_physics = Some(engine);
            },
            None => {},
        }
        self.time_elapsed = 0;
        self.sound = true;
        self.dead = false;
        self.mission_success = false;
        self.current_audio = None;
        Ok(())
    }
}

} // verus!
