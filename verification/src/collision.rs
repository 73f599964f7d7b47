//! The landing decision: which terrain samples the lander touches, whether
//! the span of terrain under it lies in a landing zone, and whether speed and
//! tilt allow a landing.
//!
//! The lander's outline is divided into two legs and a body. Each leg takes
//! the bottom quarter of the lander's height over three tenths of its width,
//! one at the left and one at the right. The body takes the four tenths of
//! the width between them, over the full height. Legs and body thus share
//! the lander's lower edge, and a terrain sample is touched when it comes
//! within the collision margin of that edge: by a leg or by the body,
//! according to where it lies under the lander. A landing zone counts only
//! where it holds every terrain point under the lander, touched or not.

use crate::entity::{normalized_angle, Entity, Transform, FULL_CIRCLE};
use crate::fixed::{div_toward_zero, divide_toward_zero};
use crate::surface::{LandingZone, LandingZoneDifficulty};
use crate::vector::Vec2;
use vstd::prelude::*;

verus! {

/// How far below the lander's lower edge a terrain sample may lie and still
/// be touched, in thousandths of a unit.
pub const COLLISION_MARGIN: i64 = 3000;

/// Largest speed of a safe touchdown, in thousandths of a unit per second.
pub const MAX_LANDING_VELOCITY: i64 = 10_000;

/// Largest tilt of a safe touchdown, in thousandths of a degree.
pub const MAX_LANDING_ANGLE: i64 = 15_000;

/// What the lander has run into.
#[derive(Debug, Clone, Copy, PartialEq, Eq, Structural)]
pub enum CollisionType {
    NoCollision,
    LegCollision,
    BodyCollision,
    LandingSuccess,
}

/// The smallest index of a sequence, zero for the empty one.
pub open spec fn index_min(s: Seq<usize>) -> int
    decreases s.len(),
{
    if s.len() == 0 {
        0
    } else if s.len() == 1 {
        s[0] as int
    } else {
        let rest = index_min(s.drop_last());
        if s.last() < rest {
            s.last() as int
        } else {
            rest
        }
    }
}

/// The largest index of a sequence, zero for the empty one.
pub open spec fn index_max(s: Seq<usize>) -> int
    decreases s.len(),
{
    if s.len() == 0 {
        0
    } else if s.len() == 1 {
        s[0] as int
    } else {
        let rest = index_max(s.drop_last());
        if s.last() > rest {
            s.last() as int
        } else {
            rest
        }
    }
}

/// The smallest and the largest index are members of the sequence, and all
/// members lie between them.
pub proof fn lemma_index_span(s: Seq<usize>)
    requires
        s.len() > 0,
    ensures
        forall|i: int| 0 <= i < s.len() ==> index_min(s) <= #[trigger] s[i] <= index_max(s),
        exists|i: int| 0 <= i < s.len() && #[trigger] s[i] == index_min(s),
        exists|i: int| 0 <= i < s.len() && #[trigger] s[i] == index_max(s),
    decreases s.len(),
{
    if s.len() == 1 {
        assert(s[0] == index_min(s));
        assert(s[0] == index_max(s));
    } else {
        let front = s.drop_last();
        lemma_index_span(front);
        let a = choose|i: int| 0 <= i < front.len() && #[trigger] front[i] == index_min(front);
        let b = choose|i: int| 0 <= i < front.len() && #[trigger] front[i] == index_max(front);
        assert(s[a] == front[a]);
        assert(s[b] == front[b]);
        assert(s[s.len() - 1] == s.last());
        assert forall|i: int| 0 <= i < s.len() implies index_min(s) <= #[trigger] s[i] <= index_max(
            s,
        ) by {
            if i < front.len() {
                assert(s[i] == front[i]);
            }
        }
    }
}

/// Whether the zone holds the whole span from `lo` to `hi`.
pub open spec fn zone_holds(z: LandingZone, lo: int, hi: int) -> bool {
    z.start <= lo && hi <= z.end
}

/// The first zone at or after position `from` that holds the span.
pub open spec fn first_holding_zone(zones: Seq<LandingZone>, lo: int, hi: int, from: int) -> Option<
    int,
>
    decreases zones.len() - from,
{
    if from < 0 || from >= zones.len() {
        None
    } else if zone_holds(zones[from], lo, hi) {
        Some(from)
    } else {
        first_holding_zone(zones, lo, hi, from + 1)
    }
}

/// What the first holding zone is: it holds the span and no zone before it
/// does; there is none exactly when no zone holds the span.
pub proof fn lemma_first_holding_zone(zones: Seq<LandingZone>, lo: int, hi: int, from: int)
    requires
        0 <= from,
    ensures
        match first_holding_zone(zones, lo, hi, from) {
            Some(k) => {
                &&& from <= k < zones.len()
                &&& zone_holds(zones[k], lo, hi)
                &&& forall|m: int| from <= m < k ==> !zone_holds(#[trigger] zones[m], lo, hi)
            },
            None => forall|m: int| from <= m < zones.len() ==> !zone_holds(#[trigger] zones[m], lo, hi),
        },
    decreases zones.len() - from,
{
    if from < zones.len() && !zone_holds(zones[from], lo, hi) {
        lemma_first_holding_zone(zones, lo, hi, from + 1);
    }
}

/// The zone that the given terrain points lie in, with the distances of
/// the points' span from the zone's two ends: the difficulty of the first
/// zone that holds every point, the distance from the zone's start to the
/// smallest point, and from the largest point to the zone's end. There is
/// none where no point is given or no zone holds them all.
pub open spec fn landing_zone_info(indices: Seq<usize>, zones: Seq<LandingZone>) -> Option<
    (LandingZoneDifficulty, int, int),
> {
    if indices.len() == 0 {
        None
    } else {
        match first_holding_zone(zones, index_min(indices), index_max(indices), 0) {
            Some(k) => Some(
                (
                    zones[k].difficulty,
                    index_min(indices) - zones[k].start,
                    zones[k].end - index_max(indices),
                ),
            ),
            None => None,
        }
    }
}

/// A zone holds the span of some points exactly when it holds each of them:
/// a zone that the points only partly overlap does not hold them.
pub proof fn lemma_zone_holds_every_index(z: LandingZone, indices: Seq<usize>)
    requires
        indices.len() > 0,
    ensures
        zone_holds(z, index_min(indices), index_max(indices)) <==> forall|i: int|
            0 <= i < indices.len() ==> z.start <= #[trigger] indices[i] <= z.end,
{
    lemma_index_span(indices);
}

/// The smallest and the largest of the indices.
fn index_span(indices: &[usize]) -> (r: (usize, usize))
    requires
        indices@.len() > 0,
    ensures
        r.0 == index_min(indices@),
        r.1 == index_max(indices@),
{
    let mut low: usize = indices[0];
    let mut high: usize = indices[0];
    let mut i: usize = 1;
    assert(indices@.take(1) =~= seq![indices@[0]]);
    while i < indices.len()
        invariant
            1 <= i <= indices.len(),
            low == index_min(indices@.take(i as int)),
            high == index_max(indices@.take(i as int)),
        decreases indices.len() - i,
    {
        assert(indices@.take(i + 1).drop_last() =~= indices@.take(i as int));
        if indices[i] < low {
            low = indices[i];
        }
        if indices[i] > high {
            high = indices[i];
        }
        i += 1;
    }
    assert(indices@.take(i as int) =~= indices@);
    (low, high)
}

/// Tells which landing zone the given terrain points lie in, and how far
/// their span is from the zone's two ends.
///
/// The points must all lie in the zone: where they only partly overlap it,
/// the zone does not count.
pub fn get_landing_zone_info(
    terrain_indices: &[usize],
    landing_zones: &[LandingZone],
    _lander_width_terrain_points: usize,
) -> (r: Option<(LandingZoneDifficulty, usize, usize)>)
    ensures
        match r {
            Some((difficulty, left, right)) => landing_zone_info(terrain_indices@, landing_zones@)
                == Some((difficulty, left as int, right as int)),
            None => landing_zone_info(terrain_indices@, landing_zones@) is None,
        },
{
    if terrain_indices.len() == 0 {
        return None;
    }
    let (low, high) = index_span(terrain_indices);
    let mut k: usize = 0;
    while k < landing_zones.len()
        invariant
            k <= landing_zones.len(),
            terrain_indices@.len() > 0,
            low == index_min(terrain_indices@),
            high == index_max(terrain_indices@),
            first_holding_zone(landing_zones@, low as int, high as int, 0) == first_holding_zone(
                landing_zones@,
                low as int,
                high as int,
                k as int,
            ),
        decreases landing_zones.len() - k,
    {
        if low >= landing_zones[k].start && high <= landing_zones[k].end {
            assert(zone_holds(landing_zones@[k as int], low as int, high as int));
            assert(first_holding_zone(landing_zones@, low as int, high as int, k as int) == Some(
                k as int,
            ));
            let zone: LandingZone = landing_zones[k];
            let left: usize = low - zone.start;
            let right: usize = zone.end - high;
            return Some((zone.difficulty, left, right));
        }
        k += 1;
    }
    None
}

/// Tells the difficulty of the landing zone that the given terrain points
/// lie in.
pub fn is_on_landing_zone(
    terrain_indices: &[usize],
    landing_zones: &[LandingZone],
    lander_width_terrain_points: usize,
) -> (r: Option<LandingZoneDifficulty>)
    ensures
        match r {
            Some(difficulty) => landing_zone_info(terrain_indices@, landing_zones@) is Some
                && (landing_zone_info(terrain_indices@, landing_zones@)->0).0 == difficulty,
            None => landing_zone_info(terrain_indices@, landing_zones@) is None,
        },
{
    match get_landing_zone_info(terrain_indices, landing_zones, lander_width_terrain_points) {
        Some((difficulty, _, _)) => Some(difficulty),
        None => None,
    }
}

/// Whether the given terrain points all lie in the flat spot that runs
/// from the first to the second index of `flat_spot_range`.
pub fn is_on_flat_spot(
    terrain_indices: &[usize],
    flat_spot_range: (usize, usize),
    _lander_width_terrain_points: usize,
) -> (r: bool)
    ensures
        r == (terrain_indices@.len() > 0 && flat_spot_range.0 <= index_min(terrain_indices@)
            && index_max(terrain_indices@) <= flat_spot_range.1),
        r == (terrain_indices@.len() > 0 && forall|i: int|
            0 <= i < terrain_indices@.len() ==> flat_spot_range.0 <= #[trigger] terrain_indices@[i]
                <= flat_spot_range.1),
{
    if terrain_indices.len() == 0 {
        return false;
    }
    proof {
        lemma_index_span(terrain_indices@);
    }
    let (low, high) = index_span(terrain_indices);
    low >= flat_spot_range.0 && high <= flat_spot_range.1
}

/// The terrain points under the lander: from the point at its left edge to
/// the point at its right edge, both rounded toward zero and limited to the
/// profile. There are none where the profile is empty or the lander lies
/// wholly beside it.
pub open spec fn footprint(x: int, width: int, len: int) -> Option<(int, int)> {
    let left = div_toward_zero(x, 1000);
    let right = div_toward_zero(x + width, 1000);
    let start = if left < 0 {
        0
    } else {
        left
    };
    if len <= 0 || start >= len || right < 0 {
        None
    } else {
        Some(
            (
                start,
                if right < len - 1 {
                    right
                } else {
                    len - 1
                },
            ),
        )
    }
}

/// Distance of terrain point `i` from the lander's left edge, in
/// thousandths of a point: points are a thousand thousandths apart.
pub open spec fn offset_of(t: Transform, i: int) -> int {
    1000 * i - t.position.x
}

/// Whether terrain point `i` lies under the left leg: the left three tenths
/// of the lander's width.
pub open spec fn under_left_leg(t: Transform, i: int) -> bool {
    0 <= offset_of(t, i) && 10 * offset_of(t, i) <= 3 * t.size.x
}

/// Whether terrain point `i` lies under the right leg: the right three
/// tenths of the lander's width.
pub open spec fn under_right_leg(t: Transform, i: int) -> bool {
    7 * t.size.x <= 10 * offset_of(t, i) && offset_of(t, i) <= t.size.x
}

/// Whether terrain point `i` lies under the body: the middle of the
/// lander's width, between the legs.
pub open spec fn under_body(t: Transform, i: int) -> bool {
    3 * t.size.x <= 10 * offset_of(t, i) <= 7 * t.size.x
}

/// Whether terrain of the given height reaches the lander's lower edge, or
/// comes within the collision margin of it.
pub open spec fn within_reach(t: Transform, height: int) -> bool {
    t.position.y <= height + COLLISION_MARGIN
}

/// Whether terrain point `i` hits a leg.
pub open spec fn leg_hit_at(t: Transform, terrain: Seq<i64>, i: int) -> bool {
    within_reach(t, terrain[i] as int) && (under_left_leg(t, i) || under_right_leg(t, i))
}

/// Whether terrain point `i` hits the body.
pub open spec fn body_hit_at(t: Transform, terrain: Seq<i64>, i: int) -> bool {
    within_reach(t, terrain[i] as int) && under_body(t, i)
}

/// Whether some terrain point from `lo` to `hi` hits a leg.
pub open spec fn any_leg_hit(t: Transform, terrain: Seq<i64>, lo: int, hi: int) -> bool {
    exists|i: int| lo <= i <= hi && #[trigger] leg_hit_at(t, terrain, i)
}

/// Whether some terrain point from `lo` to `hi` hits the body.
pub open spec fn any_body_hit(t: Transform, terrain: Seq<i64>, lo: int, hi: int) -> bool {
    exists|i: int| lo <= i <= hi && #[trigger] body_hit_at(t, terrain, i)
}

/// Whether the speed allows a landing.
pub open spec fn speed_is_safe(velocity: Vec2) -> bool {
    velocity.length_squared() <= MAX_LANDING_VELOCITY * MAX_LANDING_VELOCITY
}

/// The tilt of a lander with the given rotation: the angle to the vertical,
/// whichever way round is shorter.
pub open spec fn tilt(rotation: int) -> int {
    let angle = normalized_angle(rotation);
    if angle <= FULL_CIRCLE - angle {
        angle
    } else {
        FULL_CIRCLE - angle
    }
}

/// Whether the tilt allows a landing.
pub open spec fn angle_is_safe(rotation: int) -> bool {
    tilt(rotation) <= MAX_LANDING_ANGLE
}

/// The outcome that the hits and the landing conditions give. A leg hit
/// decides first: it is a landing where the lander stands on a zone and
/// speed and tilt are safe, and a leg collision otherwise. Without a leg
/// hit, a body hit is a body collision. Without any hit there is no
/// collision.
pub open spec fn resolve(
    leg_hit: bool,
    body_hit: bool,
    on_zone: bool,
    speed_ok: bool,
    angle_ok: bool,
) -> CollisionType {
    if leg_hit {
        if on_zone && speed_ok && angle_ok {
            CollisionType::LandingSuccess
        } else {
            CollisionType::LegCollision
        }
    } else if body_hit {
        CollisionType::BodyCollision
    } else {
        CollisionType::NoCollision
    }
}

/// The zone that the lander stands on: the first zone that holds every
/// terrain point under the lander, from `lo` to `hi`. A zone that the span
/// only partly overlaps does not count.
pub open spec fn zone_under(zones: Seq<LandingZone>, lo: int, hi: int) -> Option<int> {
    first_holding_zone(zones, lo, hi, 0)
}

/// The outcome for a lander with the given pose and velocity over the given
/// terrain and zones. A lander without velocity never lands.
pub open spec fn landing_outcome(
    t: Transform,
    terrain: Seq<i64>,
    zones: Seq<LandingZone>,
    velocity: Option<Vec2>,
) -> CollisionType {
    match footprint(t.position.x as int, t.size.x as int, terrain.len() as int) {
        None => CollisionType::NoCollision,
        Some((lo, hi)) => resolve(
            any_leg_hit(t, terrain, lo, hi),
            any_body_hit(t, terrain, lo, hi),
            zone_under(zones, lo, hi) is Some,
            velocity is Some && speed_is_safe(velocity->0),
            angle_is_safe(t.rotation as int),
        ),
    }
}

/// The difficulty of the zone that the lander has come down on with its
/// legs: that of the zone that holds the span under the lander, where a leg
/// is hit.
pub open spec fn landed_zone(t: Transform, terrain: Seq<i64>, zones: Seq<LandingZone>) -> Option<
    LandingZoneDifficulty,
> {
    match footprint(t.position.x as int, t.size.x as int, terrain.len() as int) {
        None => None,
        Some((lo, hi)) => {
            if any_leg_hit(t, terrain, lo, hi) && zone_under(zones, lo, hi) is Some {
                Some(zones[zone_under(zones, lo, hi)->0].difficulty)
            } else {
                None
            }
        },
    }
}

/// The zone information for the two ends of a span is that of the first zone
/// that holds the span.
pub proof fn lemma_zone_info_of_span(zones: Seq<LandingZone>, lo: usize, hi: usize)
    requires
        lo <= hi,
    ensures
        match zone_under(zones, lo as int, hi as int) {
            Some(k) => landing_zone_info(seq![lo, hi], zones) == Some(
                (zones[k].difficulty, lo - zones[k].start, zones[k].end - hi),
            ),
            None => landing_zone_info(seq![lo, hi], zones) is None,
        },
{
    let ends = seq![lo, hi];
    assert(ends.drop_last() =~= seq![lo]);
    assert(ends.last() == hi);
    assert(index_min(ends.drop_last()) == lo);
    assert(index_max(ends.drop_last()) == lo);
    assert(index_min(ends) == lo);
    assert(index_max(ends) == hi);
}

/// A leg hit decides whatever the body does: with the same landing
/// conditions the outcome is the same with and without a body hit, and it is
/// a landing or a leg collision.
pub proof fn lemma_leg_hit_takes_priority(body_hit: bool, on_zone: bool, speed_ok: bool, angle_ok: bool)
    ensures
        resolve(true, body_hit, on_zone, speed_ok, angle_ok) == resolve(
            true,
            !body_hit,
            on_zone,
            speed_ok,
            angle_ok,
        ),
        resolve(true, body_hit, on_zone, speed_ok, angle_ok) == CollisionType::LandingSuccess <==> (
        on_zone && speed_ok && angle_ok),
        resolve(true, body_hit, on_zone, speed_ok, angle_ok) == CollisionType::LegCollision <==> !(
        on_zone && speed_ok && angle_ok),
{
}

/// A body hit without a leg hit is a body collision, whatever the landing
/// conditions; and nothing else is.
pub proof fn lemma_body_hit_alone_is_fatal(
    leg_hit: bool,
    body_hit: bool,
    on_zone: bool,
    speed_ok: bool,
    angle_ok: bool,
)
    ensures
        resolve(leg_hit, body_hit, on_zone, speed_ok, angle_ok) == CollisionType::BodyCollision <==> (
        body_hit && !leg_hit),
        resolve(leg_hit, body_hit, on_zone, speed_ok, angle_ok) == CollisionType::NoCollision <==> (!body_hit
            && !leg_hit),
{
}

/// A landing means that a leg is hit, that one zone holds every terrain
/// point under the lander, and that speed and tilt are within their limits.
pub proof fn lemma_landing_success(
    t: Transform,
    terrain: Seq<i64>,
    zones: Seq<LandingZone>,
    velocity: Option<Vec2>,
)
    requires
        landing_outcome(t, terrain, zones, velocity) == CollisionType::LandingSuccess,
    ensures
        footprint(t.position.x as int, t.size.x as int, terrain.len() as int) is Some,
        velocity is Some && speed_is_safe(velocity->0),
        angle_is_safe(t.rotation as int),
        ({
            let (lo, hi) = footprint(t.position.x as int, t.size.x as int, terrain.len() as int)->0;
            &&& lo <= hi
            &&& any_leg_hit(t, terrain, lo, hi)
            &&& exists|k: int| 0 <= k < zones.len() && zone_holds(#[trigger] zones[k], lo, hi)
        }),
{
    let (lo, hi) = footprint(t.position.x as int, t.size.x as int, terrain.len() as int)->0;
    lemma_first_holding_zone(zones, lo, hi, 0);
    let k = zone_under(zones, lo, hi)->0;
    assert(zone_holds(zones[k], lo, hi));
}

/// A lander whose span reaches beyond every zone does not land: with a leg
/// hit it is a leg collision, whatever its speed and tilt.
pub proof fn lemma_overhanging_lander_crashes(
    t: Transform,
    terrain: Seq<i64>,
    zones: Seq<LandingZone>,
    velocity: Option<Vec2>,
)
    requires
        footprint(t.position.x as int, t.size.x as int, terrain.len() as int) is Some,
        forall|k: int|
            0 <= k < zones.len() ==> !zone_holds(
                #[trigger] zones[k],
                (footprint(t.position.x as int, t.size.x as int, terrain.len() as int)->0).0,
                (footprint(t.position.x as int, t.size.x as int, terrain.len() as int)->0).1,
            ),
    ensures
        landing_outcome(t, terrain, zones, velocity) != CollisionType::LandingSuccess,
        landed_zone(t, terrain, zones) is None,
{
    let (lo, hi) = footprint(t.position.x as int, t.size.x as int, terrain.len() as int)->0;
    lemma_first_holding_zone(zones, lo, hi, 0);
}

/// The outcome that the hits and the landing conditions give.
pub fn resolve_collision(leg_hit: bool, body_hit: bool, on_zone: bool, speed_ok: bool, angle_ok: bool) -> (r:
    CollisionType)
    ensures
        r == resolve(leg_hit, body_hit, on_zone, speed_ok, angle_ok),
{
    if leg_hit {
        if on_zone && speed_ok && angle_ok {
            CollisionType::LandingSuccess
        } else {
            CollisionType::LegCollision
        }
    } else if body_hit {
        CollisionType::BodyCollision
    } else {
        CollisionType::NoCollision
    }
}

/// Whether the speed allows a landing: at most ten units per second.
pub fn speed_within_limit(velocity: Vec2) -> (r: bool)
    ensures
        r == speed_is_safe(velocity),
{
    velocity.squared_length() <= (MAX_LANDING_VELOCITY as u128) * (MAX_LANDING_VELOCITY as u128)
}

/// The tilt of a lander with the given rotation, in thousandths of a degree.
pub fn tilt_of(rotation: i64) -> (r: i64)
    ensures
        r == tilt(rotation as int),
        0 <= r <= FULL_CIRCLE / 2,
{
    let angle: i64 = match rotation.checked_rem_euclid(FULL_CIRCLE) {
        Some(a) => a,
        None => 0,
    };
    if angle <= FULL_CIRCLE - angle {
        angle
    } else {
        FULL_CIRCLE - angle
    }
}

/// Whether the tilt allows a landing: at most fifteen degrees.
pub fn tilt_within_limit(rotation: i64) -> (r: bool)
    ensures
        r == angle_is_safe(rotation as int),
{
    tilt_of(rotation) <= MAX_LANDING_ANGLE
}

/// The terrain points under a lander whose left edge is at `x` and which is
/// `width` wide, over a profile of `len` points.
pub fn footprint_span(x: i64, width: i64, len: usize) -> (r: Option<(usize, usize)>)
    ensures
        match r {
            Some((lo, hi)) => footprint(x as int, width as int, len as int) == Some(
                (lo as int, hi as int),
            ) && hi < len,
            None => footprint(x as int, width as int, len as int) is None,
        },
{
    if len == 0 {
        return None;
    }
    let left: i128 = divide_toward_zero(x as i128, 1000);
    let right: i128 = divide_toward_zero(x as i128 + width as i128, 1000);
    if right < 0 {
        return None;
    }
    let start: i128 = if left < 0 {
        0
    } else {
        left
    };
    if start >= len as i128 {
        return None;
    }
    let last: usize = len - 1;
    let end: usize = if right < last as i128 {
        right as usize
    } else {
        last
    };
    Some((start as usize, end))
}

/// Whether terrain point `i` of the given height hits a leg, and whether it
/// hits the body.
fn hits_at(t: &Transform, height: i64, i: usize) -> (r: (bool, bool))
    ensures
        r.0 == (within_reach(*t, height as int) && (under_left_leg(*t, i as int) || under_right_leg(
            *t,
            i as int,
        ))),
        r.1 == (within_reach(*t, height as int) && under_body(*t, i as int)),
{
    let reach: bool = (t.position.y as i128) <= (height as i128) + (COLLISION_MARGIN as i128);
    if !reach {
        return (false, false);
    }
    let offset: i128 = 1000 * (i as i128) - (t.position.x as i128);
    let width: i128 = t.size.x as i128;
    let leg: i128 = 3 * width;
    let rest: i128 = 7 * width;
    let left_leg: bool = 0 <= offset && 10 * offset <= leg;
    let right_leg: bool = rest <= 10 * offset && offset <= width;
    let body: bool = leg <= 10 * offset && 10 * offset <= rest;
    (left_leg || right_leg, body)
}

/// Decides what the lander has run into, and on which zone.
///
/// Every terrain point under the lander is tested against the legs and the
/// body. The outcome follows from the hits, from the zone that holds the
/// whole span under the lander, and from speed and tilt; see
/// [`landing_outcome`].
pub fn evaluate_landing(
    transform: &Transform,
    terrain: &Vec<i64>,
    zones: &Vec<LandingZone>,
    velocity: Option<Vec2>,
) -> (r: (CollisionType, Option<LandingZoneDifficulty>))
    ensures
        r.0 == landing_outcome(*transform, terrain@, zones@, velocity),
        r.1 == landed_zone(*transform, terrain@, zones@),
{
    let (lo, hi) = match footprint_span(transform.position.x, transform.size.x, terrain.len()) {
        Some(span) => span,
        None => {
            return (CollisionType::NoCollision, None);
        },
    };
    let mut leg_hit: bool = false;
    let mut body_hit: bool = false;
    let mut i: usize = lo;
    while i <= hi
        invariant
            hi < terrain@.len(),
            hi < usize::MAX,
            lo <= hi ==> lo <= i <= hi + 1,
            lo > hi ==> i == lo,
            leg_hit == any_leg_hit(*transform, terrain@, lo as int, i - 1),
            body_hit == any_body_hit(*transform, terrain@, lo as int, i - 1),
        decreases hi + 1 - i,
    {
        let (leg, body) = hits_at(transform, terrain[i], i);
        proof {
            assert(leg == leg_hit_at(*transform, terrain@, i as int));
            assert(body == body_hit_at(*transform, terrain@, i as int));
        }
        leg_hit = leg_hit || leg;
        body_hit = body_hit || body;
        i += 1;
    }
    let info: Option<(LandingZoneDifficulty, usize, usize)> = if leg_hit {
        let mut ends: Vec<usize> = Vec::with_capacity(2);
        ends.push(lo);
        ends.push(hi);
        proof {
            assert(ends@ =~= seq![lo, hi]);
            lemma_zone_info_of_span(zones@, lo, hi);
        }
        get_landing_zone_info(ends.as_slice(), zones.as_slice(), 0)
    } else {
        None
    };
    let speed_ok: bool = match velocity {
        Some(v) => speed_within_limit(v),
        None => false,
    };
    let angle_ok: bool = tilt_within_limit(transform.rotation);
    let outcome: CollisionType = resolve_collision(leg_hit, body_hit, info.is_some(), speed_ok, angle_ok);
    let zone: Option<LandingZoneDifficulty> = match info {
        Some((difficulty, _, _)) => Some(difficulty),
        None => None,
    };
    (outcome, zone)
}

/// Decides what the lander has run into.
pub fn check_collision(entity: &Entity) -> (r: CollisionType)
    ensures
        r == landing_outcome(
            entity.transform,
            entity.terrain@,
            entity.landing_zones@,
            match entity.physics {
                Some(p) => Some(p.velocity),
                None => None,
            },
        ),
{
    check_collision_with_zone_info(entity).0
}

/// Decides what the lander has run into, and tells the difficulty of the
/// zone it has come down on with its legs, if any.
pub fn check_collision_with_zone_info(entity: &Entity) -> (r: (
    CollisionType,
    Option<LandingZoneDifficulty>,
))
    ensures
        r.0 == landing_outcome(
            entity.transform,
            entity.terrain@,
            entity.landing_zones@,
            match entity.physics {
                Some(p) => Some(p.velocity),
                None => None,
            },
        ),
        r.1 == landed_zone(entity.transform, entity.terrain@, entity.landing_zones@),
{
    let velocity: Option<Vec2> = match entity.physics {
        Some(p) => Some(p.velocity),
        None => None,
    };
    evaluate_landing(&entity.transform, &entity.terrain, &entity.landing_zones, velocity)
}

} // verus!
