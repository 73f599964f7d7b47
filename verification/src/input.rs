//! What the pilot's controls do to the lander and to the session.

use crate::entity::{
    attempt_is_owed, is_error_of_attempt, landing_spot_points, normalized_angle, AudioTrack,
    Entity, Transform,
};
use crate::physics::{Physics, RocketEngine};
use crate::surface::{zone_fits, TerrainError};
use crate::vector::Vec2;
use vstd::prelude::*;

verus! {

/// Turn per step of a held steering key, in thousandths of a degree.
pub const ROTATION_INCREMENT: i64 = 3000;

/// What a restart request leads to.
#[derive(Debug, Clone, Copy, PartialEq, Eq, Structural)]
pub enum RestartAction {
    /// A new session of three attempts begins.
    NewSession,
    /// The next attempt of the session begins.
    NextAttempt,
    /// The attempt under way begins again.
    RestartAttempt,
}

/// What a restart request leads to: a new session where the session is
/// complete, or where the lander is down and no attempt is left; the next
/// attempt where the lander is down and one is left; else the same attempt
/// again.
pub open spec fn restart_choice(session_complete: bool, dead: bool, can_start_next: bool) -> RestartAction {
    if session_complete {
        RestartAction::NewSession
    } else if dead && can_start_next {
        RestartAction::NextAttempt
    } else if dead {
        RestartAction::NewSession
    } else {
        RestartAction::RestartAttempt
    }
}

/// Decides what a restart request leads to.
pub fn restart_action(session_complete: bool, dead: bool, can_start_next: bool) -> (r: RestartAction)
    ensures
        r == restart_choice(session_complete, dead, can_start_next),
{
    if session_complete {
        RestartAction::NewSession
    } else if dead && can_start_next {
        RestartAction::NextAttempt
    } else if dead {
        RestartAction::NewSession
    } else {
        RestartAction::RestartAttempt
    }
}

/// The turn that the steering keys ask for in one step: the right key turns
/// one way, the left key the other, and both together cancel.
pub open spec fn steering(right_down: bool, left_down: bool) -> int {
    (if left_down {
        ROTATION_INCREMENT as int
    } else {
        0
    }) - (if right_down {
        ROTATION_INCREMENT as int
    } else {
        0
    })
}

/// Turns the lander as the steering keys ask.
pub fn steer(lander: &mut Entity, right_down: bool, left_down: bool)
    ensures
        final(lander).transform == (Transform {
            rotation: normalized_angle(old(lander).transform.rotation + steering(right_down, left_down)) as i64,
            ..old(lander).transform
        }),
        final(lander).transform.wf(),
        final(lander).terrain == old(lander).terrain,
        final(lander).landing_zones == old(lander).landing_zones,
        final(lander).physics == old(lander).physics,
        final(lander).rocket_physics == old(lander).rocket_physics,
        final(lander).sound == old(lander).sound,
        final(lander).time_elapsed == old(lander).time_elapsed,
        final(lander).show_debug_info == old(lander).show_debug_info,
        final(lander).dead == old(lander).dead,
        final(lander).mission_success == old(lander).mission_success,
        final(lander).current_audio == old(lander).current_audio,
{
    let mut transform: Transform = lander.transform;
    if right_down {
        transform.rotate(-ROTATION_INCREMENT);
    }
    if left_down {
        transform.rotate(ROTATION_INCREMENT);
    }
    if !right_down && !left_down {
        transform.rotate(0);
    }
    proof {
        let start = old(lander).transform.rotation as int;
        if right_down && left_down {
            vstd::arithmetic::div_mod::lemma_add_mod_noop(
                start - ROTATION_INCREMENT,
                ROTATION_INCREMENT as int,
                360_000,
            );
            vstd::arithmetic::div_mod::lemma_mod_twice(start - ROTATION_INCREMENT, 360_000);
            vstd::arithmetic::div_mod::lemma_add_mod_noop(
                (start - ROTATION_INCREMENT) % 360_000,
                ROTATION_INCREMENT as int,
                360_000,
            );
        }
    }
    lander.transform = transform;
}

/// The engine as the thrust key leaves it: firing at `full_thrust` where
/// the key is down, propellant is left and the lander is not down; else
/// stopped.
pub open spec fn throttled(rocket: RocketEngine, up_down: bool, dead: bool, full_thrust: Vec2) -> RocketEngine {
    if up_down && rocket.fuel_mass > 0 && !dead {
        RocketEngine { thrust_vector: full_thrust, is_thrusting: true, ..rocket }
    } else {
        RocketEngine { thrust_vector: Vec2 { x: 0, y: 0 }, is_thrusting: false, ..rocket }
    }
}

/// Sets the engine as the thrust key asks and tells whether it fires.
///
/// `full_thrust` is the engine's largest thrust along the lander's axis.
pub fn throttle(lander: &mut Entity, up_down: bool, full_thrust: Vec2) -> (firing: bool)
    ensures
        final(lander).rocket_physics == match old(lander).rocket_physics {
            Some(rocket) => Some(throttled(rocket, up_down, old(lander).dead, full_thrust)),
            None => None,
        },
        firing == match old(lander).rocket_physics {
            Some(rocket) => up_down && rocket.fuel_mass > 0 && !old(lander).dead,
            None => false,
        },
        final(lander).transform == old(lander).transform,
        final(lander).terrain == old(lander).terrain,
        final(lander).landing_zones == old(lander).landing_zones,
        final(lander).physics == old(lander).physics,
        final(lander).sound == old(lander).sound,
        final(lander).time_elapsed == old(lander).time_elapsed,
        final(lander).show_debug_info == old(lander).show_debug_info,
        final(lander).dead == old(lander).dead,
        final(lander).mission_success == old(lander).mission_success,
        final(lander).current_audio == old(lander).current_audio,
{
    match lander.rocket_physics {
        Some(rocket) => {
            let mut engine: RocketEngine = rocket;
            let firing: bool = up_down && engine.has_fuel() && !lander.dead;
            if firing {
                engine.thrust_vector = full_thrust;
                engine.is_thrusting = true;
            } else {
                engine.stop_thrust();
            }
            lander.rocket_physics = Some(engine);
            firing
        },
        None => false,
    }
}

/// What to do with the sound.
#[derive(Debug, Clone, Copy, PartialEq, Eq, Structural)]
pub enum AudioCommand {
    /// Leave the sound as it is.
    Keep,
    /// Stop what is playing and play the track.
    Switch(AudioTrack),
    /// Play the track, which has stopped, again.
    Replay(AudioTrack),
    /// Stop what is playing.
    Silence,
}

/// The sound command for one step and the track that plays after it. The
/// engine's sound plays while it fires; otherwise the ambient sound plays
/// where sound is wanted, and is started again when it has run out; without
/// either, whatever plays is stopped.
pub open spec fn audio_choice(
    firing: bool,
    ambient_wanted: bool,
    current: Option<AudioTrack>,
    is_playing: bool,
) -> (AudioCommand, Option<AudioTrack>) {
    if firing {
        if current == Some(AudioTrack::Acceleration) {
            (AudioCommand::Keep, current)
        } else {
            (AudioCommand::Switch(AudioTrack::Acceleration), Some(AudioTrack::Acceleration))
        }
    } else if ambient_wanted {
        if current != Some(AudioTrack::Ambient) {
            (AudioCommand::Switch(AudioTrack::Ambient), Some(AudioTrack::Ambient))
        } else if !is_playing {
            (AudioCommand::Replay(AudioTrack::Ambient), current)
        } else {
            (AudioCommand::Keep, current)
        }
    } else if current is Some {
        (AudioCommand::Silence, None)
    } else {
        (AudioCommand::Keep, None)
    }
}

/// Chooses the sound command for one step and notes the track that plays
/// after it.
///
/// `firing` tells whether the engine fires, `is_playing` whether the sound
/// device still plays. Without an engine, or with the engine stopped, the
/// ambient sound is wanted where the lander's sound is on.
pub fn select_audio(lander: &mut Entity, firing: bool, is_playing: bool) -> (command: AudioCommand)
    ensures
        command == audio_choice(firing, old(lander).sound, old(lander).current_audio, is_playing).0,
        final(lander).current_audio == audio_choice(
            firing,
            old(lander).sound,
            old(lander).current_audio,
            is_playing,
        ).1,
        final(lander).transform == old(lander).transform,
        final(lander).terrain == old(lander).terrain,
        final(lander).landing_zones == old(lander).landing_zones,
        final(lander).physics == old(lander).physics,
        final(lander).rocket_physics == old(lander).rocket_physics,
        final(lander).sound == old(lander).sound,
        final(lander).time_elapsed == old(lander).time_elapsed,
        final(lander).show_debug_info == old(lander).show_debug_info,
        final(lander).dead == old(lander).dead,
        final(lander).mission_success == old(lander).mission_success,
{
    let playing_engine: bool = match lander.current_audio {
        Some(track) => track == AudioTrack::Acceleration,
        None => false,
    };
    let playing_ambient: bool = match lander.current_audio {
        Some(track) => track == AudioTrack::Ambient,
        None => false,
    };
    if firing {
        if playing_engine {
            AudioCommand::Keep
        } else {
            lander.current_audio = Some(AudioTrack::Acceleration);
            AudioCommand::Switch(AudioTrack::Acceleration)
        }
    } else if lander.sound {
        if !playing_ambient {
            lander.current_audio = Some(AudioTrack::Ambient);
            AudioCommand::Switch(AudioTrack::Ambient)
        } else if !is_playing {
            AudioCommand::Replay(AudioTrack::Ambient)
        } else {
            AudioCommand::Keep
        }
    } else if lander.current_audio.is_some() {
        lander.current_audio = None;
        AudioCommand::Silence
    } else {
        AudioCommand::Keep
    }
}

/// Brings the lander to rest: no velocity, no forces, the engine stopped.
pub fn stop_lander(lander: &mut Entity)
    ensures
        final(lander).physics == match old(lander).physics {
            Some(p) => Some(
                Physics { velocity: Vec2 { x: 0, y: 0 }, forces: Vec2 { x: 0, y: 0 }, ..p },
            ),
            None => None,
        },
        final(lander).rocket_physics == match old(lander).rocket_physics {
            Some(rocket) => Some(
                RocketEngine { thrust_vector: Vec2 { x: 0, y: 0 }, is_thrusting: false, ..rocket },
            ),
            None => None,
        },
        final(lander).transform == old(lander).transform,
        final(lander).terrain == old(lander).terrain,
        final(lander).landing_zones == old(lander).landing_zones,
        final(lander).sound == old(lander).sound,
        final(lander).time_elapsed == old(lander).time_elapsed,
        final(lander).show_debug_info == old(lander).show_debug_info,
        final(lander).dead == old(lander).dead,
        final(lander).mission_success == old(lander).mission_success,
        final(lander).current_audio == old(lander).current_audio,
{
    match lander.physics {
        Some(p) => {
            lander.physics = Some(Physics { velocity: Vec2::zero(), mass: p.mass, forces: Vec2::zero() });
        },
        None => {},
    }
    match lander.rocket_physics {
        Some(rocket) => {
            let mut engine: RocketEngine = rocket;
            engine.stop_thrust();
            lander.rocket_physics = Some(engine);
        },
        None => {},
    }
}

/// Begins the attempt anew with the lander's size kept: see
/// [`Entity::initialize_with_terrain_and_position`].
pub fn reset_lander(
    lander: &mut Entity,
    samples: &Vec<i64>,
    seed: u64,
    screen_width: i64,
    screen_height: i64,
) -> (r: Result<(), TerrainError>)
    ensures
        match r {
            Ok(()) => final(lander).is_start_of_attempt(
                *old(lander),
                old(lander).transform.size,
                samples@,
                screen_width as int,
                screen_height as int,
            ),
            Err(e) => {
                &&& *final(lander) == *old(lander)
                &&& is_error_of_attempt(e, old(lander).transform.size, samples@.len() as int)
            },
        },
        attempt_is_owed(old(lander).transform.size, samples@.len() as int) ==> r is Ok,
        landing_spot_points(old(lander).transform.size) == 0 || !zone_fits(
            samples@.len() as int,
            landing_spot_points(old(lander).transform.size),
        ) ==> r is Err,
{
    let size: Vec2 = lander.transform.size;
    lander.initialize_with_terrain_and_position(size, samples, seed, screen_width, screen_height)
}

} // verus!
