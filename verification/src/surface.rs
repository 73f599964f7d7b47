//! Terrain generation: landing zones of three difficulties placed on a height
//! profile without overlap, flattened into the profile, and the profile scaled
//! into a requested height range.

use crate::profile::{
    flatten_zones, flattened, lemma_normalized_reaches_bounds, lemma_scale_height_range,
    lemma_seq_max, lemma_seq_min, normalize_heights, normalized, seq_max, seq_min,
};
use crate::rng::{draw_in_range, seeded_generator};
use rand::rngs::StdRng;
use vstd::prelude::*;

verus! {

/// Least number of terrain points between two landing zones.
pub const ZONE_SPACING: usize = 150;

/// Number of terrain points kept free of zones at each end of the profile.
pub const EDGE_MARGIN: usize = 100;

/// Number of conflicting proposals after which a zone is placed regardless.
pub const MAX_PLACEMENT_ATTEMPTS: usize = 50;

/// Largest number of landing zones on one profile.
pub const MAX_ZONES: usize = 3;

/// How hard a landing zone is to hit: the harder, the narrower.
#[derive(Debug, Clone, Copy, PartialEq, Eq, Structural)]
pub enum LandingZoneDifficulty {
    Hard,
    Medium,
    Easy,
}

impl LandingZoneDifficulty {
    /// Zone width as thousandths of the lander's width.
    pub open spec fn width_per_mille(self) -> int {
        match self {
            LandingZoneDifficulty::Hard => 1000,
            LandingZoneDifficulty::Medium => 1250,
            LandingZoneDifficulty::Easy => 1500,
        }
    }

    /// Score multiplier in thousandths: two divided by the width multiplier,
    /// rounded down.
    pub open spec fn score_per_mille(self) -> int {
        2_000_000int / self.width_per_mille()
    }

    /// The name of the difficulty as a sequence of characters.
    pub open spec fn label(self) -> Seq<char> {
        match self {
            LandingZoneDifficulty::Hard => "Hard"@,
            LandingZoneDifficulty::Medium => "Medium"@,
            LandingZoneDifficulty::Easy => "Easy"@,
        }
    }

    /// Width multiplier in thousandths: 1000, 1250 or 1500.
    pub fn width_multiplier(&self) -> (r: u32)
        ensures
            r == self.width_per_mille(),
    {
        match self {
            LandingZoneDifficulty::Hard => 1000,
            LandingZoneDifficulty::Medium => 1250,
            LandingZoneDifficulty::Easy => 1500,
        }
    }

    /// Human-readable name of the difficulty.
    pub fn name(&self) -> (r: &'static str)
        ensures
            r@ == self.label(),
    {
        match self {
            LandingZoneDifficulty::Hard => "Hard",
            LandingZoneDifficulty::Medium => "Medium",
            LandingZoneDifficulty::Easy => "Easy",
        }
    }

    /// Score multiplier in thousandths: 2000 for hard, 1600 for medium and
    /// 1333 for easy zones.
    pub fn score(&self) -> (r: u32)
        ensures
            r == self.score_per_mille(),
            *self == LandingZoneDifficulty::Hard ==> r == 2000,
            *self == LandingZoneDifficulty::Medium ==> r == 1600,
            *self == LandingZoneDifficulty::Easy ==> r == 1333,
    {
        2_000_000 / self.width_multiplier()
    }
}

/// The score multiplier is two over the width multiplier, to within one
/// thousandth from below.
pub proof fn lemma_score_is_two_over_width(d: LandingZoneDifficulty)
    ensures
        d.score_per_mille() * d.width_per_mille() <= 2_000_000,
        2_000_000 < (d.score_per_mille() + 1) * d.width_per_mille(),
{
    match d {
        LandingZoneDifficulty::Hard => {
            assert(d.score_per_mille() == 2000);
        },
        LandingZoneDifficulty::Medium => {
            assert(d.score_per_mille() == 1600);
        },
        LandingZoneDifficulty::Easy => {
            assert(d.score_per_mille() == 1333);
        },
    }
}

/// The difficulty with the given ordinal: 0 is hard, 1 medium, 2 easy.
pub open spec fn difficulty_at(index: int) -> LandingZoneDifficulty {
    if index == 0 {
        LandingZoneDifficulty::Hard
    } else if index == 1 {
        LandingZoneDifficulty::Medium
    } else {
        LandingZoneDifficulty::Easy
    }
}

/// Picks a difficulty by its ordinal.
pub fn difficulty_from_index(index: usize) -> (d: LandingZoneDifficulty)
    requires
        index < 3,
    ensures
        d == difficulty_at(index as int),
{
    if index == 0 {
        LandingZoneDifficulty::Hard
    } else if index == 1 {
        LandingZoneDifficulty::Medium
    } else {
        LandingZoneDifficulty::Easy
    }
}

/// A flat stretch of terrain, from `start` to `end` inclusive.
#[derive(Debug, Clone, Copy, PartialEq, Eq, Structural)]
pub struct LandingZone {
    pub start: usize,
    pub end: usize,
    pub difficulty: LandingZoneDifficulty,
    pub width_points: usize,
}

/// Why terrain could not be generated.
#[derive(Debug, Clone, Copy, PartialEq, Eq, Structural)]
pub enum TerrainError {
    /// Not even the narrowest zone fits between the edge margins.
    TerrainTooShort,
    /// The zone of the difficulty that was drawn does not fit between the
    /// edge margins.
    ZoneDoesNotFit,
    /// The lander is less than one terrain point wide.
    LanderTooNarrow,
}

/// Width in terrain points of a zone of difficulty `d` for a lander
/// `lander_width` points wide.
pub open spec fn spec_zone_width(lander_width: int, d: LandingZoneDifficulty) -> int {
    lander_width * d.width_per_mille() / 1000
}

/// Whether a zone `width` points wide has a start position that leaves the
/// edge margin free on both sides of a profile of `num_points` points.
pub open spec fn zone_fits(num_points: int, width: int) -> bool {
    num_points > width + 2 * EDGE_MARGIN
}

/// Whether `count` zones of the largest width, each with its spacing, fit
/// between the edge margins.
pub open spec fn fits_multiple(num_points: int, lander_width: int, count: int) -> bool {
    &&& num_points >= 2 * EDGE_MARGIN
    &&& count * (spec_zone_width(lander_width, LandingZoneDifficulty::Easy) + ZONE_SPACING)
        <= num_points - 2 * EDGE_MARGIN
}

/// Whether two spans are closer to each other than the zone spacing.
pub open spec fn spans_conflict(a_start: int, a_end: int, b_start: int, b_end: int) -> bool {
    !(a_end + ZONE_SPACING < b_start || a_start > b_end + ZONE_SPACING)
}

/// Whether the span conflicts with one of the zones.
pub open spec fn conflicts_with_any(start: int, end: int, placed: Seq<LandingZone>) -> bool {
    exists|k: int|
        0 <= k < placed.len() && spans_conflict(
            start,
            end,
            (#[trigger] placed[k]).start as int,
            placed[k].end as int,
        )
}

/// Whether every two zones keep the zone spacing between them.
pub open spec fn pairwise_spaced(zones: Seq<LandingZone>) -> bool {
    forall|i: int, j: int|
        0 <= i < zones.len() && 0 <= j < zones.len() && i != j ==> !spans_conflict(
            (#[trigger] zones[i]).start as int,
            zones[i].end as int,
            (#[trigger] zones[j]).start as int,
            zones[j].end as int,
        )
}

/// Whether a zone is a well-formed zone of a profile of `num_points` points
/// for a lander `lander_width` points wide: as wide as its difficulty says,
/// with consistent ends, and clear of both edge margins.
pub open spec fn zone_valid(z: LandingZone, num_points: int, lander_width: int) -> bool {
    &&& z.width_points == spec_zone_width(lander_width, z.difficulty)
    &&& z.width_points >= 1
    &&& z.end == z.start + z.width_points - 1
    &&& z.start <= z.end
    &&& EDGE_MARGIN <= z.start
    &&& z.end + EDGE_MARGIN < num_points
}

/// Whether every zone of the sequence is valid.
pub open spec fn zones_valid(zones: Seq<LandingZone>, num_points: int, lander_width: int) -> bool {
    forall|k: int| 0 <= k < zones.len() ==> zone_valid(#[trigger] zones[k], num_points, lander_width)
}

/// Whether the zones are in ascending order of their start.
pub open spec fn sorted_by_start(zones: Seq<LandingZone>) -> bool {
    forall|i: int, j: int|
        0 <= i <= j < zones.len() ==> (#[trigger] zones[i]).start <= (#[trigger] zones[j]).start
}

/// Width of a zone, computed without overflow.
pub fn zone_width(lander_width_points: usize, d: LandingZoneDifficulty) -> (r: u128)
    ensures
        r == spec_zone_width(lander_width_points as int, d),
        lander_width_points <= r <= 2 * lander_width_points,
{
    let base: u128 = lander_width_points as u128;
    match d {
        LandingZoneDifficulty::Hard => base * 1000 / 1000,
        LandingZoneDifficulty::Medium => base * 1250 / 1000,
        LandingZoneDifficulty::Easy => base * 1500 / 1000,
    }
}

/// Whether `count` zones of the largest width fit with their spacing.
pub fn can_fit_multiple(num_points: usize, lander_width_points: usize, count: usize) -> (r: bool)
    ensures
        r == fits_multiple(num_points as int, lander_width_points as int, count as int),
{
    if num_points < 2 * EDGE_MARGIN {
        return false;
    }
    let widest: u128 = zone_width(lander_width_points, LandingZoneDifficulty::Easy);
    let each: u128 = widest + ZONE_SPACING as u128;
    let room: u128 = (num_points - 2 * EDGE_MARGIN) as u128;
    match (count as u128).checked_mul(each) {
        Some(needed) => needed <= room,
        None => false,
    }
}

/// Whether two spans conflict.
pub fn spans_too_close(a_start: usize, a_end: usize, b_start: usize, b_end: usize) -> (r: bool)
    ensures
        r == spans_conflict(a_start as int, a_end as int, b_start as int, b_end as int),
{
    let clear_before: bool = (a_end as u128) + (ZONE_SPACING as u128) < (b_start as u128);
    let clear_after: bool = (a_start as u128) > (b_end as u128) + (ZONE_SPACING as u128);
    !(clear_before || clear_after)
}

/// Whether the span conflicts with one of the zones placed so far.
pub fn overlaps_placed(start: usize, end: usize, placed: &Vec<LandingZone>) -> (r: bool)
    ensures
        r == conflicts_with_any(start as int, end as int, placed@),
{
    let mut k: usize = 0;
    while k < placed.len()
        invariant
            k <= placed.len(),
            forall|m: int|
                0 <= m < k ==> !spans_conflict(
                    start as int,
                    end as int,
                    (#[trigger] placed@[m]).start as int,
                    placed@[m].end as int,
                ),
        decreases placed.len() - k,
    {
        if spans_too_close(start, end, placed[k].start, placed[k].end) {
            return true;
        }
        k += 1;
    }
    false
}

/// Whether every two of the zones keep the zone spacing.
pub fn zones_spaced(zones: &Vec<LandingZone>) -> (r: bool)
    ensures
        r == pairwise_spaced(zones@),
{
    let n: usize = zones.len();
    let mut i: usize = 0;
    while i < n
        invariant
            n == zones.len(),
            i <= n,
            forall|a: int, b: int|
                0 <= a < i && 0 <= b < n && a != b ==> !spans_conflict(
                    (#[trigger] zones@[a]).start as int,
                    zones@[a].end as int,
                    (#[trigger] zones@[b]).start as int,
                    zones@[b].end as int,
                ),
        decreases n - i,
    {
        let mut j: usize = 0;
        while j < n
            invariant
                n == zones.len(),
                i < n,
                j <= n,
                forall|b: int|
                    0 <= b < j && b != i ==> !spans_conflict(
                        zones@[i as int].start as int,
                        zones@[i as int].end as int,
                        (#[trigger] zones@[b]).start as int,
                        zones@[b].end as int,
                    ),
            decreases n - j,
        {
            if j != i && spans_too_close(zones[i].start, zones[i].end, zones[j].start, zones[j].end) {
                return false;
            }
            j += 1;
        }
        i += 1;
    }
    true
}

/// The retry rule of zone placement: a proposed position is taken when it
/// conflicts with no zone, or when more than the allowed number of proposals
/// have already been turned down.
pub fn accept_proposal(overlaps: bool, attempts: usize) -> (r: bool)
    ensures
        r == (!overlaps || attempts > MAX_PLACEMENT_ATTEMPTS),
{
    !overlaps || attempts > MAX_PLACEMENT_ATTEMPTS
}


/// Whether `p` tells where each zone of `after` stood in `before`: a
/// one-to-one map between the positions of two sequences of the same zones.
pub open spec fn is_rearrangement(p: Seq<int>, before: Seq<LandingZone>, after: Seq<LandingZone>) -> bool {
    &&& p.len() == before.len()
    &&& after.len() == before.len()
    &&& forall|i: int| 0 <= i < p.len() ==> 0 <= #[trigger] p[i] < before.len()
    &&& forall|i: int, j: int| 0 <= i < p.len() && 0 <= j < p.len() && i != j ==> #[trigger] p[i] != #[trigger] p[j]
    &&& forall|i: int| 0 <= i < after.len() ==> #[trigger] after[i] == before[p[i]]
}

/// Whether zones with the same start keep, in `after`, the order they came in.
pub open spec fn keeps_order_of_equals(p: Seq<int>, after: Seq<LandingZone>) -> bool {
    forall|i: int, j: int|
        0 <= i < j < after.len() && (#[trigger] after[i]).start == (#[trigger] after[j]).start
            ==> p[i] < p[j]
}

/// Whether `after` is `before` sorted by start, zones of equal start in their
/// first order.
pub open spec fn is_stable_sort_of(before: Seq<LandingZone>, after: Seq<LandingZone>) -> bool {
    &&& sorted_by_start(after)
    &&& exists|p: Seq<int>| #[trigger] is_rearrangement(p, before, after) && keeps_order_of_equals(p, after)
}

/// Rearranging zones keeps the validity of each.
pub proof fn lemma_rearrangement_keeps_validity(
    p: Seq<int>,
    before: Seq<LandingZone>,
    after: Seq<LandingZone>,
    num_points: int,
    lander_width: int,
)
    requires
        is_rearrangement(p, before, after),
        zones_valid(before, num_points, lander_width),
    ensures
        zones_valid(after, num_points, lander_width),
{
    assert forall|k: int| 0 <= k < after.len() implies zone_valid(
        #[trigger] after[k],
        num_points,
        lander_width,
    ) by {
        assert(after[k] == before[p[k]]);
        assert(zone_valid(before[p[k]], num_points, lander_width));
    }
}

/// Rearranging zones keeps the spacing between every two of them.
pub proof fn lemma_rearrangement_keeps_spacing(
    p: Seq<int>,
    before: Seq<LandingZone>,
    after: Seq<LandingZone>,
)
    requires
        is_rearrangement(p, before, after),
        pairwise_spaced(before),
    ensures
        pairwise_spaced(after),
{
    assert forall|i: int, j: int|
        0 <= i < after.len() && 0 <= j < after.len() && i != j implies !spans_conflict(
        (#[trigger] after[i]).start as int,
        after[i].end as int,
        (#[trigger] after[j]).start as int,
        after[j].end as int,
    ) by {
        assert(after[i] == before[p[i]]);
        assert(after[j] == before[p[j]]);
        assert(p[i] != p[j]);
        let a = before[p[i]];
        let b = before[p[j]];
        assert(!spans_conflict(a.start as int, a.end as int, b.start as int, b.end as int));
    }
}

/// A sorted sequence of zones with one more zone put in: behind every zone
/// that starts no later, before every zone that starts later.
pub open spec fn inserted(sorted: Seq<LandingZone>, z: LandingZone) -> Seq<LandingZone>
    decreases sorted.len(),
{
    if sorted.len() == 0 {
        seq![z]
    } else if sorted.last().start <= z.start {
        sorted.push(z)
    } else {
        inserted(sorted.drop_last(), z).push(sorted.last())
    }
}

/// The zones sorted by their start, zones of equal start in the order they
/// came in: each zone in turn put into the sorted zones before it.
pub open spec fn sorted_by_insertion(zones: Seq<LandingZone>) -> Seq<LandingZone>
    decreases zones.len(),
{
    if zones.len() == 0 {
        Seq::empty()
    } else {
        inserted(sorted_by_insertion(zones.drop_last()), zones.last())
    }
}

/// The sequence `sorted` with `z` put in at position `at`.
pub open spec fn put_in(sorted: Seq<LandingZone>, z: LandingZone, at: int) -> Seq<LandingZone> {
    sorted.take(at).push(z) + sorted.skip(at)
}

/// Where a zone goes into sorted zones: at the position behind which every
/// zone starts later and before which the next zone starts no later.
pub proof fn lemma_inserted_at(sorted: Seq<LandingZone>, z: LandingZone, at: int)
    requires
        0 <= at <= sorted.len(),
        forall|k: int| at <= k < sorted.len() ==> (#[trigger] sorted[k]).start > z.start,
        at == 0 || sorted[at - 1].start <= z.start,
    ensures
        inserted(sorted, z) == put_in(sorted, z, at),
    decreases sorted.len(),
{
    if sorted.len() == 0 {
        assert(put_in(sorted, z, at) =~= seq![z]);
    } else if at == sorted.len() {
        assert(put_in(sorted, z, at) =~= sorted.push(z));
    } else {
        let front = sorted.drop_last();
        assert(sorted.last() == sorted[sorted.len() - 1]);
        assert forall|k: int| at <= k < front.len() implies (#[trigger] front[k]).start > z.start by {
            assert(front[k] == sorted[k]);
        }
        if at > 0 {
            assert(front[at - 1] == sorted[at - 1]);
        }
        lemma_inserted_at(front, z, at);
        assert(put_in(front, z, at).push(sorted.last()) =~= put_in(sorted, z, at));
    }
}

/// Sorts the zones by their start, keeping zones of equal start in the order
/// they came in.
pub fn sort_zones(zones: &mut Vec<LandingZone>)
    ensures
        final(zones)@ == sorted_by_insertion(old(zones)@),
        is_stable_sort_of(old(zones)@, final(zones)@),
{
    let n: usize = zones.len();
    let ghost before: Seq<LandingZone> = zones@;
    let ghost mut p: Seq<int> = Seq::new(n as nat, |i: int| i);
    let mut i: usize = 0;
    proof {
        assert(before.take(0) =~= Seq::<LandingZone>::empty());
        assert(zones@.take(0) =~= Seq::<LandingZone>::empty());
    }
    while i < n
        invariant
            n == zones.len(),
            n == before.len(),
            i <= n,
            is_rearrangement(p, before, zones@),
            keeps_order_of_equals(p, zones@),
            forall|a: int, b: int|
                0 <= a <= b < i && b < n ==> (#[trigger] zones@[a]).start <= (#[trigger] zones@[b]).start,
            zones@.take(i as int) == sorted_by_insertion(before.take(i as int)),
            zones@.skip(i as int) == before.skip(i as int),
        decreases n - i,
    {
        let ghost prefix: Seq<LandingZone> = zones@.take(i as int);
        let ghost incoming: LandingZone = zones@[i as int];
        let mut j: usize = i;
        proof {
            assert(zones@[i as int] == zones@.skip(i as int)[0]);
            assert(before[i as int] == before.skip(i as int)[0]);
            assert(zones@.take(i + 1) =~= put_in(prefix, incoming, i as int));
            assert(zones@.skip(i + 1) =~= zones@.skip(i as int).skip(1));
            assert(before.skip(i + 1) =~= before.skip(i as int).skip(1));
        }
        while j > 0 && zones[j - 1].start > zones[j].start
            invariant
                n == zones.len(),
                n == before.len(),
                j <= i < n,
                prefix.len() == i,
                is_rearrangement(p, before, zones@),
                keeps_order_of_equals(p, zones@),
                forall|a: int, b: int|
                    0 <= a <= b <= i && a != j && b != j ==> (#[trigger] zones@[a]).start <= (
                    #[trigger] zones@[b]).start,
                forall|b: int| j < b <= i ==> zones@[j as int].start < (#[trigger] zones@[b]).start,
                zones@.take(i + 1) == put_in(prefix, incoming, j as int),
                zones@.skip(i + 1) == before.skip(i + 1),
                forall|k: int| j <= k < i ==> (#[trigger] prefix[k]).start > incoming.start,
            decreases j,
        {
            let ghost prev: Seq<LandingZone> = zones@;
            let ghost prev_p: Seq<int> = p;
            let lower: LandingZone = zones[j - 1];
            let upper: LandingZone = zones[j];
            proof {
                assert(prev[j as int] == prev.take(i + 1)[j as int]);
                assert(prev[j - 1] == prev.take(i + 1)[j - 1]);
                assert(upper == incoming);
                assert(lower == prefix[j - 1]);
            }
            zones[j - 1] = upper;
            zones[j] = lower;
            proof {
                p = prev_p.update(j - 1, prev_p[j as int]).update(j as int, prev_p[j - 1]);
                assert forall|a: int| 0 <= a < zones@.len() implies #[trigger] zones@[a] == before[p[a]] by {
                    assert(prev[a] == before[prev_p[a]]);
                }
                assert forall|a: int, b: int|
                    0 <= a < b < zones@.len() && (#[trigger] zones@[a]).start == (
                    #[trigger] zones@[b]).start implies p[a] < p[b] by {
                    let a0: int = if a == j - 1 { j as int } else if a == j { j - 1 } else { a };
                    let b0: int = if b == j - 1 { j as int } else if b == j { j - 1 } else { b };
                    assert(zones@[a] == prev[a0]);
                    assert(zones@[b] == prev[b0]);
                    assert(p[a] == prev_p[a0]);
                    assert(p[b] == prev_p[b0]);
                    assert(a0 < b0);
                }
                let ghost target: Seq<LandingZone> = put_in(prefix, incoming, j - 1);
                assert forall|k: int| 0 <= k <= i implies zones@.take(i + 1)[k] == #[trigger] target[k] by {
                    assert(prev.take(i + 1)[k] == put_in(prefix, incoming, j as int)[k]);
                    assert(prev.take(i + 1)[k] == prev[k]);
                }
                assert(zones@.take(i + 1) =~= put_in(prefix, incoming, j - 1));
                assert(zones@.skip(i + 1) =~= prev.skip(i + 1));
            }
            j -= 1;
        }
        proof {
            if j > 0 {
                assert(zones@[j - 1] == zones@.take(i + 1)[j - 1]);
                assert(zones@[j as int] == zones@.take(i + 1)[j as int]);
                assert(zones@[j - 1] == prefix[j - 1]);
                assert(zones@[j as int] == incoming);
            }
            lemma_inserted_at(prefix, incoming, j as int);
            assert(before.take(i + 1).drop_last() =~= before.take(i as int));
            assert(before.take(i + 1).last() == before[i as int]);
        }
        i += 1;
    }
    proof {
        assert(zones@.take(n as int) =~= zones@);
        assert(before.take(n as int) =~= before);
        assert(sorted_by_start(zones@));
        assert(is_rearrangement(p, before, zones@) && keeps_order_of_equals(p, zones@));
    }
}


/// Landing zones placed on a profile.
#[derive(Debug, Clone)]
pub struct ZonePlan {
    /// The zones, in ascending order of their start.
    pub zones: Vec<LandingZone>,
    /// Whether some zone lies closer to another than the zone spacing, as
    /// happens when the proposals for a zone run out.
    pub forced: bool,
}

/// Whether `zones` is a zone set that placement may produce for a profile of
/// `num_points` points and a lander `lander_width` points wide.
pub open spec fn is_zone_set(zones: Seq<LandingZone>, num_points: int, lander_width: int) -> bool {
    &&& 1 <= zones.len() <= MAX_ZONES
    &&& zones_valid(zones, num_points, lander_width)
    &&& sorted_by_start(zones)
    &&& zones.len() > 1 ==> fits_multiple(num_points, lander_width, zones.len() as int)
}

/// Builds the zone of the given width and difficulty that starts at `start`.
pub fn zone_at(start: usize, width: usize, difficulty: LandingZoneDifficulty) -> (z: LandingZone)
    requires
        width >= 1,
        start + width <= usize::MAX,
    ensures
        z.start == start,
        z.end == start + width - 1,
        z.difficulty == difficulty,
        z.width_points == width,
{
    LandingZone { start, end: start + width - 1, difficulty, width_points: width }
}

/// Number of start positions proposed for one zone: as many as may be
/// refused, and one more that is taken whatever it conflicts with.
pub const PROPOSALS_PER_ZONE: usize = 52;

/// Whether the proposal made after `attempts` refusals is taken: see
/// [`accept_proposal`].
pub open spec fn proposal_accepted(placed: Seq<LandingZone>, start: int, width: int, attempts: int) -> bool {
    !conflicts_with_any(start, start + width - 1, placed) || attempts > MAX_PLACEMENT_ATTEMPTS
}

/// Position in `proposals`, at or after `from`, of the first start position
/// that is taken for a zone `width` points wide.
pub open spec fn first_accepted(
    placed: Seq<LandingZone>,
    proposals: Seq<usize>,
    width: int,
    from: int,
) -> Option<int>
    decreases proposals.len() - from,
{
    if from < 0 || from >= proposals.len() {
        None
    } else if proposal_accepted(placed, proposals[from] as int, width, from) {
        Some(from)
    } else {
        first_accepted(placed, proposals, width, from + 1)
    }
}

/// What the first accepted proposal is: it is accepted and none before it
/// is; there is none exactly when no proposal is accepted, which takes fewer
/// proposals than are made for a zone.
pub proof fn lemma_first_accepted(placed: Seq<LandingZone>, proposals: Seq<usize>, width: int, from: int)
    requires
        0 <= from,
    ensures
        match first_accepted(placed, proposals, width, from) {
            Some(k) => {
                &&& from <= k < proposals.len()
                &&& proposal_accepted(placed, proposals[k] as int, width, k)
                &&& forall|m: int|
                    from <= m < k ==> !proposal_accepted(placed, #[trigger] proposals[m] as int, width, m)
            },
            None => {
                &&& forall|m: int|
                    from <= m < proposals.len() ==> !proposal_accepted(
                        placed,
                        #[trigger] proposals[m] as int,
                        width,
                        m,
                    )
                &&& proposals.len() <= MAX_PLACEMENT_ATTEMPTS + 1 || from > MAX_PLACEMENT_ATTEMPTS + 1
            },
        },
    decreases proposals.len() - from,
{
    if from < proposals.len() && !proposal_accepted(placed, proposals[from] as int, width, from) {
        lemma_first_accepted(placed, proposals, width, from + 1);
    }
}

/// Settles where a zone goes, given the start positions proposed for it in
/// turn: at the first that conflicts with no zone placed before, or, where
/// more than the allowed number of proposals were turned down, at the next
/// one whatever it conflicts with. Where the proposals run out before, there
/// is no zone.
pub fn settle_zone(
    placed: &Vec<LandingZone>,
    proposals: &Vec<usize>,
    width: usize,
    difficulty: LandingZoneDifficulty,
) -> (r: Option<LandingZone>)
    requires
        width >= 1,
        forall|k: int| 0 <= k < proposals@.len() ==> #[trigger] proposals@[k] + width <= usize::MAX,
    ensures
        match first_accepted(placed@, proposals@, width as int, 0) {
            Some(k) => r == Some(
                LandingZone {
                    start: proposals@[k],
                    end: (proposals@[k] + width - 1) as usize,
                    difficulty,
                    width_points: width,
                },
            ),
            None => r is None,
        },
{
    let mut attempts: usize = 0;
    while attempts < proposals.len()
        invariant
            width >= 1,
            attempts <= proposals.len(),
            forall|k: int| 0 <= k < proposals@.len() ==> #[trigger] proposals@[k] + width <= usize::MAX,
            first_accepted(placed@, proposals@, width as int, 0) == first_accepted(
                placed@,
                proposals@,
                width as int,
                attempts as int,
            ),
        decreases proposals.len() - attempts,
    {
        let zone: LandingZone = zone_at(proposals[attempts], width, difficulty);
        let overlaps: bool = overlaps_placed(zone.start, zone.end, placed);
        if accept_proposal(overlaps, attempts) {
            return Some(zone);
        }
        attempts += 1;
    }
    None
}

/// What is drawn for one zone: the ordinal of its difficulty, and the start
/// positions proposed for it in turn.
#[derive(Debug, Clone)]
pub struct ZoneDraw {
    pub difficulty: usize,
    pub proposals: Vec<usize>,
}

/// Width of the zone that the draw asks for.
pub open spec fn drawn_width(lander_width: int, draw: ZoneDraw) -> int {
    spec_zone_width(lander_width, difficulty_at(draw.difficulty as int))
}

/// Whether a zone `width` points wide that starts at `start` keeps clear of
/// both edge margins.
pub open spec fn proposal_in_range(start: int, width: int, num_points: int) -> bool {
    EDGE_MARGIN <= start < num_points - width - EDGE_MARGIN
}

/// The zone of the given width and difficulty that starts at `start`.
pub open spec fn zone_of(start: usize, width: int, difficulty: LandingZoneDifficulty) -> LandingZone {
    LandingZone { start, end: (start + width - 1) as usize, difficulty, width_points: width as usize }
}

/// Whether the draw is one that can be made for a zone: a difficulty's
/// ordinal, and `needed` proposals that keep the zone clear of the margins.
pub open spec fn draw_valid(draw: ZoneDraw, num_points: int, lander_width: int, needed: int) -> bool {
    &&& draw.difficulty < 3
    &&& draw.proposals@.len() == needed
    &&& forall|j: int|
        0 <= j < draw.proposals@.len() ==> proposal_in_range(
            #[trigger] draw.proposals@[j] as int,
            drawn_width(lander_width, draw),
            num_points,
        )
}

/// Whether `count` and `draws` are what can be drawn for a profile of
/// `num_points` points and a lander `lander_width` points wide. The count is
/// from one to three. Where that many zones fit, there is a draw for each
/// with all its proposals. Where they do not, there is one draw, with one
/// proposal if its zone fits at all. Where no zone fits, nothing is asked of
/// the draws.
pub open spec fn draws_valid(num_points: int, lander_width: int, count: int, draws: Seq<ZoneDraw>) -> bool {
    &&& 1 <= count <= MAX_ZONES
    &&& zone_fits(num_points, lander_width) ==> if fits_multiple(num_points, lander_width, count) {
        &&& draws.len() == count
        &&& forall|k: int|
            0 <= k < draws.len() ==> draw_valid(
                #[trigger] draws[k],
                num_points,
                lander_width,
                PROPOSALS_PER_ZONE as int,
            )
    } else {
        &&& draws.len() == 1
        &&& draws[0].difficulty < 3
        &&& zone_fits(num_points, drawn_width(lander_width, draws[0])) ==> draw_valid(
            draws[0],
            num_points,
            lander_width,
            1,
        )
    }
}

/// The zone that a draw settles on, given the zones placed before: at the
/// first of its proposals that is accepted.
pub open spec fn settled(placed: Seq<LandingZone>, lander_width: int, draw: ZoneDraw) -> Option<
    LandingZone,
> {
    match first_accepted(placed, draw.proposals@, drawn_width(lander_width, draw), 0) {
        Some(k) => Some(
            zone_of(
                draw.proposals@[k],
                drawn_width(lander_width, draw),
                difficulty_at(draw.difficulty as int),
            ),
        ),
        None => None,
    }
}

/// The zones that the first `n` draws settle on, in the order of the draws:
/// each zone is settled against the zones before it.
pub open spec fn zones_in_turn(lander_width: int, draws: Seq<ZoneDraw>, n: nat) -> Seq<LandingZone>
    decreases n,
{
    if n == 0 {
        Seq::empty()
    } else {
        let before = zones_in_turn(lander_width, draws, (n - 1) as nat);
        match settled(before, lander_width, draws[n - 1]) {
            Some(zone) => before.push(zone),
            None => before,
        }
    }
}

/// The zones that the drawn values give, or the error. Terrain that not
/// even the narrowest zone fits is too short. Where `count` zones of the
/// largest width fit with their spacing, each draw settles a zone in turn
/// and the zones are sorted. Otherwise the first draw gives the only zone,
/// at its first proposal, or an error where its zone does not fit.
pub open spec fn arranged(num_points: int, lander_width: int, count: int, draws: Seq<ZoneDraw>) -> Result<
    Seq<LandingZone>,
    TerrainError,
> {
    if !zone_fits(num_points, lander_width) {
        Err(TerrainError::TerrainTooShort)
    } else if fits_multiple(num_points, lander_width, count) {
        Ok(sorted_by_insertion(zones_in_turn(lander_width, draws, count as nat)))
    } else if !zone_fits(num_points, drawn_width(lander_width, draws[0])) {
        Err(TerrainError::ZoneDoesNotFit)
    } else {
        Ok(
            seq![
                zone_of(
                    draws[0].proposals@[0],
                    drawn_width(lander_width, draws[0]),
                    difficulty_at(draws[0].difficulty as int),
                ),
            ],
        )
    }
}

/// Whether the outcome of zone placement is the one that the drawn values
/// give: the same zones, marked as forced exactly when two of them are
/// closer than the zone spacing; or the same error.
pub open spec fn is_arrangement(r: Result<ZonePlan, TerrainError>, drawn: Result<Seq<LandingZone>, TerrainError>) -> bool {
    match drawn {
        Ok(zones) => match r {
            Ok(plan) => plan.zones@ == zones && plan.forced == !pairwise_spaced(zones),
            Err(_) => false,
        },
        Err(e) => match r {
            Ok(_) => false,
            Err(found) => found == e,
        },
    }
}

/// What holds of every outcome of zone placement for a profile of
/// `num_points` points and a lander `lander_width` points wide. The zones
/// are a zone set, and a single zone is never forced. The error is that the
/// terrain is too short exactly when not even the narrowest zone fits, and
/// else that the drawn zone does not fit. Placement fails where not even the
/// narrowest zone fits, and succeeds where the widest does.
pub open spec fn is_placement(r: Result<ZonePlan, TerrainError>, num_points: int, lander_width: int) -> bool {
    &&& match r {
        Ok(plan) => {
            &&& is_zone_set(plan.zones@, num_points, lander_width)
            &&& plan.forced == !pairwise_spaced(plan.zones@)
            &&& plan.zones@.len() == 1 ==> !plan.forced
        },
        Err(e) => {
            &&& e == TerrainError::TerrainTooShort <==> !zone_fits(num_points, lander_width)
            &&& e == TerrainError::TerrainTooShort || e == TerrainError::ZoneDoesNotFit
            &&& !fits_multiple(num_points, lander_width, 1)
        },
    }
    &&& !zone_fits(num_points, lander_width) ==> r is Err
    &&& zone_fits(num_points, spec_zone_width(lander_width, LandingZoneDifficulty::Easy)) ==> r is Ok
}

/// Equal drawn values give equal zones: two outcomes of zone placement for
/// the same drawn values hold the same zones with the same mark, or the same
/// error.
pub proof fn lemma_arrangement_is_determined(
    first: Result<ZonePlan, TerrainError>,
    second: Result<ZonePlan, TerrainError>,
    drawn: Result<Seq<LandingZone>, TerrainError>,
)
    requires
        is_arrangement(first, drawn),
        is_arrangement(second, drawn),
    ensures
        match (first, second) {
            (Ok(p), Ok(q)) => p.zones@ == q.zones@ && p.forced == q.forced,
            (Err(e), Err(f)) => e == f,
            _ => false,
        },
{
}

/// Places the landing zones that the drawn values give.
///
/// `count` is the number of zones drawn and `draws` what was drawn for each
/// zone. Where `count` zones of the largest width fit with their spacing,
/// each zone is settled on its proposals in turn, as [`settle_zone`] does,
/// and the zones are sorted by their start. Otherwise a single zone is placed
/// at the one position drawn for it, if its width fits the terrain.
pub fn arrange_zones(
    num_points: usize,
    lander_width_points: usize,
    count: usize,
    draws: &Vec<ZoneDraw>,
) -> (r: Result<ZonePlan, TerrainError>)
    requires
        lander_width_points > 0,
        draws_valid(num_points as int, lander_width_points as int, count as int, draws@),
    ensures
        is_arrangement(r, arranged(num_points as int, lander_width_points as int, count as int, draws@)),
        is_placement(r, num_points as int, lander_width_points as int),
{
    if (num_points as u128) <= (lander_width_points as u128) + 2 * (EDGE_MARGIN as u128) {
        return Err(TerrainError::TerrainTooShort);
    }
    let mut zones: Vec<LandingZone> = Vec::new();
    if !can_fit_multiple(num_points, lander_width_points, count) {
        let difficulty: LandingZoneDifficulty = difficulty_from_index(draws[0].difficulty);
        let wide: u128 = zone_width(lander_width_points, difficulty);
        if (num_points as u128) <= wide + 2 * (EDGE_MARGIN as u128) {
            return Err(TerrainError::ZoneDoesNotFit);
        }
        let width: usize = wide as usize;
        assert(proposal_in_range(draws@[0].proposals@[0] as int, width as int, num_points as int));
        zones.push(zone_at(draws[0].proposals[0], width, difficulty));
        proof {
            assert(zone_valid(zones@[0], num_points as int, lander_width_points as int));
            assert(zones@ =~= seq![zone_of(draws@[0].proposals@[0], width as int, difficulty)]);
        }
    } else {
        let mut placed: usize = 0;
        while placed < count
            invariant
                placed <= count,
                lander_width_points > 0,
                draws_valid(num_points as int, lander_width_points as int, count as int, draws@),
                zone_fits(num_points as int, lander_width_points as int),
                fits_multiple(num_points as int, lander_width_points as int, count as int),
                zones@ == zones_in_turn(lander_width_points as int, draws@, placed as nat),
                zones@.len() == placed,
                zones_valid(zones@, num_points as int, lander_width_points as int),
            decreases count - placed,
        {
            let ghost earlier: Seq<LandingZone> = zones@;
            assert(draw_valid(
                draws@[placed as int],
                num_points as int,
                lander_width_points as int,
                PROPOSALS_PER_ZONE as int,
            ));
            let difficulty: LandingZoneDifficulty = difficulty_from_index(draws[placed].difficulty);
            let wide: u128 = zone_width(lander_width_points, difficulty);
            assert(wide <= spec_zone_width(lander_width_points as int, LandingZoneDifficulty::Easy));
            assert(zone_fits(num_points as int, wide as int)) by (nonlinear_arith)
                requires
                    1 <= count,
                    0 <= wide <= spec_zone_width(
                        lander_width_points as int,
                        LandingZoneDifficulty::Easy,
                    ),
                    fits_multiple(num_points as int, lander_width_points as int, count as int),
            ;
            let width: usize = wide as usize;
            proof {
                lemma_first_accepted(earlier, draws@[placed as int].proposals@, width as int, 0);
                assert forall|k: int| 0 <= k < draws@[placed as int].proposals@.len() implies #[trigger]
                    draws@[placed as int].proposals@[k] + width <= usize::MAX by {
                    assert(proposal_in_range(
                        draws@[placed as int].proposals@[k] as int,
                        width as int,
                        num_points as int,
                    ));
                }
            }
            match settle_zone(&zones, &draws[placed].proposals, width, difficulty) {
                Some(zone) => {
                    proof {
                        let at = first_accepted(
                            earlier,
                            draws@[placed as int].proposals@,
                            width as int,
                            0,
                        )->0;
                        assert(proposal_in_range(
                            draws@[placed as int].proposals@[at] as int,
                            width as int,
                            num_points as int,
                        ));
                    }
                    zones.push(zone);
                },
                None => {
                    assert(false);
                },
            }
            proof {
                assert(zones@ == earlier.push(zones@[placed as int]));
                assert forall|k: int| 0 <= k < zones@.len() implies zone_valid(
                    #[trigger] zones@[k],
                    num_points as int,
                    lander_width_points as int,
                ) by {
                    if k < earlier.len() {
                        assert(zones@[k] == earlier[k]);
                    }
                }
            }
            placed += 1;
        }
        let ghost unsorted: Seq<LandingZone> = zones@;
        sort_zones(&mut zones);
        proof {
            let p = choose|p: Seq<int>| #[trigger]
                is_rearrangement(p, unsorted, zones@) && keeps_order_of_equals(p, zones@);
            lemma_rearrangement_keeps_validity(
                p,
                unsorted,
                zones@,
                num_points as int,
                lander_width_points as int,
            );
        }
    }
    let forced: bool = !zones_spaced(&zones);
    Ok(ZonePlan { zones, forced })
}

/// Draws `needed` start positions for a zone `width` points wide.
fn draw_proposals(rng: &mut StdRng, num_points: usize, width: usize, needed: usize) -> (proposals: Vec<
    usize,
>)
    requires
        zone_fits(num_points as int, width as int),
    ensures
        proposals@.len() == needed,
        forall|j: int|
            0 <= j < proposals@.len() ==> proposal_in_range(
                #[trigger] proposals@[j] as int,
                width as int,
                num_points as int,
            ),
{
    let mut proposals: Vec<usize> = Vec::new();
    while proposals.len() < needed
        invariant
            zone_fits(num_points as int, width as int),
            proposals@.len() <= needed,
            forall|j: int|
                0 <= j < proposals@.len() ==> proposal_in_range(
                    #[trigger] proposals@[j] as int,
                    width as int,
                    num_points as int,
                ),
        decreases needed - proposals.len(),
    {
        let start: usize = draw_in_range(rng, EDGE_MARGIN, num_points - width - EDGE_MARGIN);
        proposals.push(start);
    }
    proposals
}

/// Draws the number of zones and, for each zone, its difficulty and the
/// start positions proposed for it.
fn draw_zones(rng: &mut StdRng, num_points: usize, lander_width_points: usize) -> (r: (
    usize,
    Vec<ZoneDraw>,
))
    requires
        lander_width_points > 0,
    ensures
        draws_valid(num_points as int, lander_width_points as int, r.0 as int, r.1@),
{
    let count: usize = draw_in_range(rng, 1, MAX_ZONES + 1);
    let mut draws: Vec<ZoneDraw> = Vec::new();
    if (num_points as u128) <= (lander_width_points as u128) + 2 * (EDGE_MARGIN as u128) {
        return (count, draws);
    }
    if !can_fit_multiple(num_points, lander_width_points, count) {
        let index: usize = draw_in_range(rng, 0, 3);
        let wide: u128 = zone_width(lander_width_points, difficulty_from_index(index));
        let proposals: Vec<usize> = if (num_points as u128) <= wide + 2 * (EDGE_MARGIN as u128) {
            Vec::new()
        } else {
            draw_proposals(rng, num_points, wide as usize, 1)
        };
        draws.push(ZoneDraw { difficulty: index, proposals });
    } else {
        while draws.len() < count
            invariant
                1 <= count <= MAX_ZONES,
                lander_width_points > 0,
                draws@.len() <= count,
                fits_multiple(num_points as int, lander_width_points as int, count as int),
                forall|k: int|
                    0 <= k < draws@.len() ==> draw_valid(
                        #[trigger] draws@[k],
                        num_points as int,
                        lander_width_points as int,
                        PROPOSALS_PER_ZONE as int,
                    ),
            decreases count - draws.len(),
        {
            let ghost earlier: Seq<ZoneDraw> = draws@;
            let index: usize = draw_in_range(rng, 0, 3);
            let wide: u128 = zone_width(lander_width_points, difficulty_from_index(index));
            assert(wide <= spec_zone_width(lander_width_points as int, LandingZoneDifficulty::Easy));
            assert(zone_fits(num_points as int, wide as int)) by (nonlinear_arith)
                requires
                    1 <= count,
                    0 <= wide <= spec_zone_width(
                        lander_width_points as int,
                        LandingZoneDifficulty::Easy,
                    ),
                    fits_multiple(num_points as int, lander_width_points as int, count as int),
            ;
            let proposals: Vec<usize> = draw_proposals(rng, num_points, wide as usize, PROPOSALS_PER_ZONE);
            draws.push(ZoneDraw { difficulty: index, proposals });
            proof {
                assert forall|k: int| 0 <= k < draws@.len() implies draw_valid(
                    #[trigger] draws@[k],
                    num_points as int,
                    lander_width_points as int,
                    PROPOSALS_PER_ZONE as int,
                ) by {
                    if k < earlier.len() {
                        assert(draws@[k] == earlier[k]);
                    }
                }
            }
        }
    }
    (count, draws)
}

/// Places one to three landing zones on a profile of `num_points` points for
/// a lander `lander_width_points` points wide, drawing from the generator
/// seeded with `seed`.
///
/// The number of zones is drawn, and for each zone its difficulty and the
/// start positions proposed for it. The zones are those that
/// [`arrange_zones`] gives for what was drawn.
pub fn place_landing_zones(num_points: usize, lander_width_points: usize, seed: u64) -> (r: Result<
    ZonePlan,
    TerrainError,
>)
    requires
        lander_width_points > 0,
    ensures
        is_placement(r, num_points as int, lander_width_points as int),
        exists|count: int, draws: Seq<ZoneDraw>|
            #[trigger] draws_valid(num_points as int, lander_width_points as int, count, draws)
                && is_arrangement(
                r,
                arranged(num_points as int, lander_width_points as int, count, draws),
            ),
{
    let mut rng: StdRng = seeded_generator(seed);
    let (count, draws) = draw_zones(&mut rng, num_points, lander_width_points);
    arrange_zones(num_points, lander_width_points, count, &draws)
}

/// Whether `terrain` is the profile that `samples` and `zones` give: the
/// zones flattened into the samples, and the result scaled into the range
/// from `min_height` to `max_height`.
pub open spec fn is_terrain_of(
    terrain: Seq<i64>,
    samples: Seq<i64>,
    zones: Seq<LandingZone>,
    min_height: int,
    max_height: int,
) -> bool {
    &&& terrain.len() == samples.len()
    &&& forall|i: int|
        0 <= i < terrain.len() ==> #[trigger] terrain[i] == normalized(
            flattened(samples, zones),
            min_height,
            max_height,
        )[i]
}

/// What holds of every outcome of terrain generation. The zones are a zone
/// set and the terrain is what samples and zones give; with the height range
/// the right way round the terrain lies within it, and reaches both its ends
/// where the flattened samples have relief. The error is that the terrain is
/// too short exactly when not even the narrowest zone fits, and else that the
/// drawn zone does not fit. Generation fails where not even the narrowest
/// zone fits, and succeeds where the widest does.
pub open spec fn is_generation(
    r: Result<(Vec<i64>, Vec<LandingZone>), TerrainError>,
    samples: Seq<i64>,
    min_height: int,
    max_height: int,
    lander_width: int,
) -> bool {
    &&& match r {
        Ok((terrain, zones)) => {
            &&& is_zone_set(zones@, samples.len() as int, lander_width)
            &&& is_terrain_of(terrain@, samples, zones@, min_height, max_height)
            &&& min_height <= max_height ==> forall|i: int|
                0 <= i < terrain@.len() ==> min_height <= #[trigger] terrain@[i] <= max_height
            &&& min_height <= max_height && seq_min(flattened(samples, zones@)) < seq_max(
                flattened(samples, zones@),
            ) ==> {
                &&& exists|i: int| 0 <= i < terrain@.len() && #[trigger] terrain@[i] == min_height
                &&& exists|i: int| 0 <= i < terrain@.len() && #[trigger] terrain@[i] == max_height
            }
        },
        Err(e) => {
            &&& e == TerrainError::TerrainTooShort <==> !zone_fits(samples.len() as int, lander_width)
            &&& e == TerrainError::TerrainTooShort || e == TerrainError::ZoneDoesNotFit
            &&& !fits_multiple(samples.len() as int, lander_width, 1)
        },
    }
    &&& !zone_fits(samples.len() as int, lander_width) ==> r is Err
    &&& zone_fits(samples.len() as int, spec_zone_width(lander_width, LandingZoneDifficulty::Easy)) ==> r is Ok
}

/// Whether the outcome of terrain generation is the one that the drawn
/// values give: the zones drawn, with the terrain that samples and zones
/// give; or the same error.
pub open spec fn is_generation_from(
    r: Result<(Vec<i64>, Vec<LandingZone>), TerrainError>,
    samples: Seq<i64>,
    min_height: int,
    max_height: int,
    drawn: Result<Seq<LandingZone>, TerrainError>,
) -> bool {
    match drawn {
        Ok(zones) => match r {
            Ok((terrain, found)) => found@ == zones && is_terrain_of(
                terrain@,
                samples,
                zones,
                min_height,
                max_height,
            ),
            Err(_) => false,
        },
        Err(e) => match r {
            Ok(_) => false,
            Err(found) => found == e,
        },
    }
}

/// Equal samples, heights and drawn values give equal terrain: two outcomes
/// of terrain generation for them hold the same profile and the same zones,
/// or the same error.
pub proof fn lemma_generation_is_determined(
    first: Result<(Vec<i64>, Vec<LandingZone>), TerrainError>,
    second: Result<(Vec<i64>, Vec<LandingZone>), TerrainError>,
    samples: Seq<i64>,
    min_height: int,
    max_height: int,
    drawn: Result<Seq<LandingZone>, TerrainError>,
)
    requires
        is_generation_from(first, samples, min_height, max_height, drawn),
        is_generation_from(second, samples, min_height, max_height, drawn),
    ensures
        match (first, second) {
            (Ok((terrain, zones)), Ok((other_terrain, other_zones))) => terrain@ == other_terrain@
                && zones@ == other_zones@,
            (Err(e), Err(f)) => e == f,
            _ => false,
        },
{
    match (first, second) {
        (Ok((terrain, zones)), Ok((other_terrain, other_zones))) => {
            assert forall|i: int| 0 <= i < terrain@.len() implies terrain@[i] == other_terrain@[i] by {
                assert(terrain@[i] == normalized(flattened(samples, zones@), min_height, max_height)[i]);
                assert(other_terrain@[i] == normalized(
                    flattened(samples, other_zones@),
                    min_height,
                    max_height,
                )[i]);
            }
            assert(terrain@ =~= other_terrain@);
        },
        _ => {},
    }
}

/// Generates the terrain that the drawn values give.
///
/// `samples` holds one noise sample per terrain point, `count` the number of
/// zones drawn and `draws` what was drawn for each zone. The zones are placed
/// as [`arrange_zones`] does, each zone is flattened to the sample at its
/// start, and the profile is scaled so that its lowest point lies at
/// `min_height` and its highest at `max_height`.
pub fn generate_terrain_from_draws(
    samples: &Vec<i64>,
    min_height: i64,
    max_height: i64,
    lander_width_points: usize,
    count: usize,
    draws: &Vec<ZoneDraw>,
) -> (r: Result<(Vec<i64>, Vec<LandingZone>), TerrainError>)
    requires
        lander_width_points > 0,
        draws_valid(samples@.len() as int, lander_width_points as int, count as int, draws@),
    ensures
        is_generation_from(
            r,
            samples@,
            min_height as int,
            max_height as int,
            arranged(samples@.len() as int, lander_width_points as int, count as int, draws@),
        ),
        is_generation(r, samples@, min_height as int, max_height as int, lander_width_points as int),
{
    let plan: ZonePlan = match arrange_zones(samples.len(), lander_width_points, count, draws) {
        Ok(plan) => plan,
        Err(e) => {
            return Err(e);
        },
    };
    let zones: Vec<LandingZone> = plan.zones;
    let flat: Vec<i64> = flatten_zones(samples, &zones);
    let terrain: Vec<i64> = normalize_heights(&flat, min_height, max_height);
    proof {
        let shaped = normalized(flat@, min_height as int, max_height as int);
        if min_height <= max_height {
            lemma_seq_min(flat@);
            lemma_seq_max(flat@);
            assert forall|i: int| 0 <= i < terrain@.len() implies min_height <= #[trigger] terrain@[i]
                <= max_height by {
                assert(terrain@[i] == shaped[i]);
                lemma_scale_height_range(
                    flat@[i] as int,
                    seq_min(flat@),
                    seq_max(flat@),
                    min_height as int,
                    max_height as int,
                );
            }
            if seq_min(flat@) < seq_max(flat@) {
                lemma_normalized_reaches_bounds(flat@, min_height as int, max_height as int);
                let a = choose|i: int| 0 <= i < flat@.len() && #[trigger] shaped[i] == min_height;
                assert(terrain@[a] == min_height);
                let b = choose|i: int| 0 <= i < flat@.len() && #[trigger] shaped[i] == max_height;
                assert(terrain@[b] == max_height);
            }
        }
    }
    Ok((terrain, zones))
}

/// Generates terrain with one to three landing zones.
///
/// `samples` holds one noise sample per terrain point. The number of zones
/// and, for each zone, its difficulty and the start positions proposed for it
/// are drawn from the generator seeded with `seed`. The terrain is the one
/// that [`generate_terrain_from_draws`] gives for what was drawn.
pub fn generate_terrain_with_multiple_landing_zones(
    samples: &Vec<i64>,
    min_height: i64,
    max_height: i64,
    lander_width_points: usize,
    seed: u64,
) -> (r: Result<(Vec<i64>, Vec<LandingZone>), TerrainError>)
    requires
        lander_width_points > 0,
    ensures
        is_generation(r, samples@, min_height as int, max_height as int, lander_width_points as int),
        exists|count: int, draws: Seq<ZoneDraw>|
            #[trigger] draws_valid(samples@.len() as int, lander_width_points as int, count, draws)
                && is_generation_from(
                r,
                samples@,
                min_height as int,
                max_height as int,
                arranged(samples@.len() as int, lander_width_points as int, count, draws),
            ),
{
    let mut rng: StdRng = seeded_generator(seed);
    let (count, draws) = draw_zones(&mut rng, samples.len(), lander_width_points);
    generate_terrain_from_draws(samples, min_height, max_height, lander_width_points, count, &draws)
}

/// Generates terrain as [`generate_terrain_with_multiple_landing_zones`]
/// does and reports, in place of the zones, the span of the first of them.
pub fn generate_terrain_with_flat_spot(
    samples: &Vec<i64>,
    min_height: i64,
    max_height: i64,
    lander_width_points: usize,
    seed: u64,
) -> (r: Result<(Vec<i64>, (usize, usize)), TerrainError>)
    requires
        lander_width_points > 0,
    ensures
        match r {
            Ok((terrain, spot)) => exists|zones: Seq<LandingZone>|
                {
                    &&& #[trigger] is_zone_set(zones, samples@.len() as int, lander_width_points as int)
                    &&& is_terrain_of(terrain@, samples@, zones, min_height as int, max_height as int)
                    &&& spot == (zones[0].start, zones[0].end)
                },
            Err(e) => {
                &&& e == TerrainError::TerrainTooShort <==> !zone_fits(
                    samples@.len() as int,
                    lander_width_points as int,
                )
                &&& e == TerrainError::TerrainTooShort || e == TerrainError::ZoneDoesNotFit
                &&& !fits_multiple(samples@.len() as int, lander_width_points as int, 1)
            },
        },
        !zone_fits(samples@.len() as int, lander_width_points as int) ==> r is Err,
        zone_fits(
            samples@.len() as int,
            spec_zone_width(lander_width_points as int, LandingZoneDifficulty::Easy),
        ) ==> r is Ok,
{
    match generate_terrain_with_multiple_landing_zones(
        samples,
        min_height,
        max_height,
        lander_width_points,
        seed,
    ) {
        Ok((terrain, zones)) => {
            let spot: (usize, usize) = (zones[0].start, zones[0].end);
            assert(is_zone_set(zones@, samples@.len() as int, lander_width_points as int));
            Ok((terrain, spot))
        },
        Err(e) => Err(e),
    }
}

} // verus!
