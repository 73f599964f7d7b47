//! Height profiles: one elevation per terrain point, in thousandths of a
//! unit. Landing zones are flattened into a profile, and a profile is scaled
//! into a height range by its lowest and highest point.

use crate::fixed::{lemma_share_bounded, mul_div};
use crate::surface::{pairwise_spaced, spans_conflict, LandingZone};
use vstd::prelude::*;

verus! {

/// Whether the zone covers the terrain point `i`.
pub open spec fn zone_covers(z: LandingZone, i: int) -> bool {
    z.start <= i <= z.end
}

/// The first zone at or after position `from` of the sequence that covers the
/// terrain point `i`.
pub open spec fn first_zone_from(zones: Seq<LandingZone>, i: int, from: int) -> Option<int>
    decreases zones.len() - from,
{
    if from < 0 || from >= zones.len() {
        None
    } else if zone_covers(zones[from], i) {
        Some(from)
    } else {
        first_zone_from(zones, i, from + 1)
    }
}

/// The first zone of the sequence that covers the terrain point `i`.
pub open spec fn first_zone_at(zones: Seq<LandingZone>, i: int) -> Option<int> {
    first_zone_from(zones, i, 0)
}

/// Whether every zone lies within a profile of `len` points.
pub open spec fn zones_within(zones: Seq<LandingZone>, len: int) -> bool {
    forall|k: int| 0 <= k < zones.len() ==> (#[trigger] zones[k]).start <= zones[k].end < len
}

/// Height of point `i` once the zones are flattened: within a zone, the
/// sample at the start of the first zone that covers the point; elsewhere
/// the point's own sample.
pub open spec fn flattened_height(samples: Seq<i64>, zones: Seq<LandingZone>, i: int) -> i64 {
    match first_zone_at(zones, i) {
        Some(k) => samples[zones[k].start as int],
        None => samples[i],
    }
}

/// The profile with the zones flattened.
pub open spec fn flattened(samples: Seq<i64>, zones: Seq<LandingZone>) -> Seq<i64> {
    Seq::new(samples.len(), |i: int| flattened_height(samples, zones, i))
}

/// What the first covering zone is: it covers the point and no zone before
/// it does; there is none exactly when no zone covers the point.
pub proof fn lemma_first_zone_from(zones: Seq<LandingZone>, i: int, from: int)
    requires
        0 <= from,
    ensures
        match first_zone_from(zones, i, from) {
            Some(k) => {
                &&& from <= k < zones.len()
                &&& zone_covers(zones[k], i)
                &&& forall|m: int| from <= m < k ==> !zone_covers(#[trigger] zones[m], i)
            },
            None => forall|m: int| from <= m < zones.len() ==> !zone_covers(#[trigger] zones[m], i),
        },
    decreases zones.len() - from,
{
    if from < zones.len() && !zone_covers(zones[from], i) {
        lemma_first_zone_from(zones, i, from + 1);
    }
}

/// Where zones keep their spacing, a point belongs to the one zone that
/// covers it, so each zone is flat at the height of its first point.
pub proof fn lemma_spaced_zones_are_flat(samples: Seq<i64>, zones: Seq<LandingZone>, k: int, i: int)
    requires
        pairwise_spaced(zones),
        0 <= k < zones.len(),
        zone_covers(zones[k], i),
    ensures
        first_zone_at(zones, i) == Some(k),
        flattened_height(samples, zones, i) == samples[zones[k].start as int],
{
    lemma_first_zone_from(zones, i, 0);
    let first = first_zone_at(zones, i);
    assert(first is Some);
    let m = first->0;
    if m != k {
        assert(!spans_conflict(
            zones[m].start as int,
            zones[m].end as int,
            zones[k].start as int,
            zones[k].end as int,
        ));
    }
}

/// Index of the first zone that covers the terrain point `i`.
pub fn zone_index_at(zones: &Vec<LandingZone>, i: usize) -> (r: Option<usize>)
    ensures
        match r {
            Some(k) => first_zone_at(zones@, i as int) == Some(k as int) && k < zones@.len(),
            None => first_zone_at(zones@, i as int) is None,
        },
{
    let mut k: usize = 0;
    while k < zones.len()
        invariant
            k <= zones.len(),
            first_zone_at(zones@, i as int) == first_zone_from(zones@, i as int, k as int),
        decreases zones.len() - k,
    {
        if zones[k].start <= i && i <= zones[k].end {
            return Some(k);
        }
        k += 1;
    }
    None
}

/// Flattens the zones into the samples: every point of a zone takes the
/// sample at the zone's start.
pub fn flatten_zones(samples: &Vec<i64>, zones: &Vec<LandingZone>) -> (out: Vec<i64>)
    requires
        zones_within(zones@, samples@.len() as int),
    ensures
        out@ == flattened(samples@, zones@),
{
    let n: usize = samples.len();
    let mut out: Vec<i64> = Vec::with_capacity(n);
    let mut i: usize = 0;
    while i < n
        invariant
            n == samples.len(),
            i <= n,
            out@.len() == i,
            zones_within(zones@, samples@.len() as int),
            forall|m: int| 0 <= m < i ==> out@[m] == flattened_height(samples@, zones@, m),
        decreases n - i,
    {
        let height: i64 = match zone_index_at(zones, i) {
            Some(k) => samples[zones[k].start],
            None => samples[i],
        };
        out.push(height);
        i += 1;
    }
    assert(out@ =~= flattened(samples@, zones@));
    out
}

/// The lowest value of a sequence, zero for the empty one.
pub open spec fn seq_min(s: Seq<i64>) -> int
    decreases s.len(),
{
    if s.len() == 0 {
        0
    } else if s.len() == 1 {
        s[0] as int
    } else {
        let rest = seq_min(s.drop_last());
        if s.last() < rest {
            s.last() as int
        } else {
            rest
        }
    }
}

/// The highest value of a sequence, zero for the empty one.
pub open spec fn seq_max(s: Seq<i64>) -> int
    decreases s.len(),
{
    if s.len() == 0 {
        0
    } else if s.len() == 1 {
        s[0] as int
    } else {
        let rest = seq_max(s.drop_last());
        if s.last() > rest {
            s.last() as int
        } else {
            rest
        }
    }
}

/// The lowest value is a member of the sequence and no member is lower.
pub proof fn lemma_seq_min(s: Seq<i64>)
    requires
        s.len() > 0,
    ensures
        forall|i: int| 0 <= i < s.len() ==> seq_min(s) <= #[trigger] s[i],
        exists|i: int| 0 <= i < s.len() && #[trigger] s[i] == seq_min(s),
    decreases s.len(),
{
    if s.len() == 1 {
        assert(s[0] == seq_min(s));
    } else {
        let front = s.drop_last();
        lemma_seq_min(front);
        let w = choose|i: int| 0 <= i < front.len() && #[trigger] front[i] == seq_min(front);
        assert(s[w] == front[w]);
        assert(s[s.len() - 1] == s.last());
        assert forall|i: int| 0 <= i < s.len() implies seq_min(s) <= #[trigger] s[i] by {
            if i < front.len() {
                assert(s[i] == front[i]);
            }
        }
    }
}

/// The highest value is a member of the sequence and no member is higher.
pub proof fn lemma_seq_max(s: Seq<i64>)
    requires
        s.len() > 0,
    ensures
        forall|i: int| 0 <= i < s.len() ==> seq_max(s) >= #[trigger] s[i],
        exists|i: int| 0 <= i < s.len() && #[trigger] s[i] == seq_max(s),
    decreases s.len(),
{
    if s.len() == 1 {
        assert(s[0] == seq_max(s));
    } else {
        let front = s.drop_last();
        lemma_seq_max(front);
        let w = choose|i: int| 0 <= i < front.len() && #[trigger] front[i] == seq_max(front);
        assert(s[w] == front[w]);
        assert(s[s.len() - 1] == s.last());
        assert forall|i: int| 0 <= i < s.len() implies seq_max(s) >= #[trigger] s[i] by {
            if i < front.len() {
                assert(s[i] == front[i]);
            }
        }
    }
}

/// The lowest height of a profile, zero for the empty profile.
pub fn lowest(heights: &Vec<i64>) -> (r: i64)
    ensures
        r == seq_min(heights@),
{
    if heights.len() == 0 {
        return 0;
    }
    let mut low: i64 = heights[0];
    let mut i: usize = 1;
    assert(heights@.take(1) =~= seq![heights@[0]]);
    while i < heights.len()
        invariant
            1 <= i <= heights.len(),
            low == seq_min(heights@.take(i as int)),
        decreases heights.len() - i,
    {
        assert(heights@.take(i + 1).drop_last() =~= heights@.take(i as int));
        if heights[i] < low {
            low = heights[i];
        }
        i += 1;
    }
    assert(heights@.take(i as int) =~= heights@);
    low
}

/// The highest height of a profile, zero for the empty profile.
pub fn highest(heights: &Vec<i64>) -> (r: i64)
    ensures
        r == seq_max(heights@),
{
    if heights.len() == 0 {
        return 0;
    }
    let mut high: i64 = heights[0];
    let mut i: usize = 1;
    assert(heights@.take(1) =~= seq![heights@[0]]);
    while i < heights.len()
        invariant
            1 <= i <= heights.len(),
            high == seq_max(heights@.take(i as int)),
        decreases heights.len() - i,
    {
        assert(heights@.take(i + 1).drop_last() =~= heights@.take(i as int));
        if heights[i] > high {
            high = heights[i];
        }
        i += 1;
    }
    assert(heights@.take(i as int) =~= heights@);
    high
}

/// A height `h` of a profile that spans `lo` to `hi`, scaled so that `lo`
/// becomes `floor` and `hi` becomes `ceiling`; a profile without any relief
/// lies at `floor`. The scaled share is rounded toward `floor`.
pub open spec fn scale_height(h: int, lo: int, hi: int, floor: int, ceiling: int) -> int {
    if hi <= lo {
        floor
    } else if ceiling >= floor {
        floor + (h - lo) * (ceiling - floor) / (hi - lo)
    } else {
        floor - (h - lo) * (floor - ceiling) / (hi - lo)
    }
}

/// The profile scaled into the range from `floor` to `ceiling`.
pub open spec fn normalized(heights: Seq<i64>, floor: int, ceiling: int) -> Seq<int> {
    Seq::new(
        heights.len(),
        |i: int| scale_height(heights[i] as int, seq_min(heights), seq_max(heights), floor, ceiling),
    )
}

/// A scaled height lies between `floor` and `ceiling`; the lowest height
/// becomes `floor` and, where the profile has relief, the highest becomes
/// `ceiling`.
pub proof fn lemma_scale_height_range(h: int, lo: int, hi: int, floor: int, ceiling: int)
    requires
        lo <= h <= hi,
    ensures
        floor <= ceiling ==> floor <= scale_height(h, lo, hi, floor, ceiling) <= ceiling,
        ceiling <= floor ==> ceiling <= scale_height(h, lo, hi, floor, ceiling) <= floor,
        h == lo ==> scale_height(h, lo, hi, floor, ceiling) == floor,
        h == hi && lo < hi ==> scale_height(h, lo, hi, floor, ceiling) == ceiling,
{
    if hi > lo {
        if ceiling >= floor {
            lemma_share_bounded(h - lo, hi - lo, ceiling - floor);
        } else {
            lemma_share_bounded(h - lo, hi - lo, floor - ceiling);
        }
    }
}

/// Scales one height of a profile that spans `lo` to `hi`.
pub fn rescale(h: i64, lo: i64, hi: i64, floor: i64, ceiling: i64) -> (r: i64)
    requires
        lo <= h <= hi,
    ensures
        r == scale_height(h as int, lo as int, hi as int, floor as int, ceiling as int),
{
    if hi <= lo {
        return floor;
    }
    let share: u64 = (h as i128 - lo as i128) as u64;
    let span: u64 = (hi as i128 - lo as i128) as u64;
    if ceiling >= floor {
        let range: u64 = (ceiling as i128 - floor as i128) as u64;
        proof {
            lemma_share_bounded(share as int, span as int, range as int);
        }
        let rise: u128 = mul_div(share, range, span);
        (floor as i128 + rise as i128) as i64
    } else {
        let range: u64 = (floor as i128 - ceiling as i128) as u64;
        proof {
            lemma_share_bounded(share as int, span as int, range as int);
        }
        let drop: u128 = mul_div(share, range, span);
        (floor as i128 - drop as i128) as i64
    }
}

/// Scales a profile into the range from `floor` to `ceiling` by its lowest
/// and highest point.
pub fn normalize_heights(heights: &Vec<i64>, floor: i64, ceiling: i64) -> (out: Vec<i64>)
    ensures
        out@.len() == heights@.len(),
        forall|i: int| 0 <= i < out@.len() ==> out@[i] == normalized(heights@, floor as int, ceiling as int)[i],
{
    let n: usize = heights.len();
    let lo: i64 = lowest(heights);
    let hi: i64 = highest(heights);
    let mut out: Vec<i64> = Vec::with_capacity(n);
    let mut i: usize = 0;
    proof {
        if n > 0 {
            lemma_seq_min(heights@);
            lemma_seq_max(heights@);
        }
    }
    while i < n
        invariant
            n == heights.len(),
            i <= n,
            out@.len() == i,
            lo == seq_min(heights@),
            hi == seq_max(heights@),
            forall|m: int| 0 <= m < n ==> lo <= #[trigger] heights@[m] <= hi,
            forall|m: int|
                0 <= m < i ==> out@[m] == scale_height(
                    heights@[m] as int,
                    lo as int,
                    hi as int,
                    floor as int,
                    ceiling as int,
                ),
        decreases n - i,
    {
        out.push(rescale(heights[i], lo, hi, floor, ceiling));
        i += 1;
    }
    out
}

/// A scaled profile with relief reaches from `floor` to `ceiling` exactly:
/// every height lies between them, and some height equals each of them.
pub proof fn lemma_normalized_reaches_bounds(heights: Seq<i64>, floor: int, ceiling: int)
    requires
        heights.len() > 0,
        seq_min(heights) < seq_max(heights),
        floor <= ceiling,
    ensures
        forall|i: int|
            0 <= i < heights.len() ==> floor <= #[trigger] normalized(heights, floor, ceiling)[i]
                <= ceiling,
        exists|i: int| 0 <= i < heights.len() && #[trigger] normalized(heights, floor, ceiling)[i] == floor,
        exists|i: int|
            0 <= i < heights.len() && #[trigger] normalized(heights, floor, ceiling)[i] == ceiling,
{
    lemma_seq_min(heights);
    lemma_seq_max(heights);
    let lo = seq_min(heights);
    let hi = seq_max(heights);
    let out = normalized(heights, floor, ceiling);
    assert forall|i: int| 0 <= i < heights.len() implies floor <= #[trigger] out[i] <= ceiling by {
        lemma_scale_height_range(heights[i] as int, lo, hi, floor, ceiling);
    }
    let a = choose|i: int| 0 <= i < heights.len() && #[trigger] heights[i] == lo;
    lemma_scale_height_range(heights[a] as int, lo, hi, floor, ceiling);
    assert(out[a] == floor);
    let b = choose|i: int| 0 <= i < heights.len() && #[trigger] heights[i] == hi;
    lemma_scale_height_range(heights[b] as int, lo, hi, floor, ceiling);
    assert(out[b] == ceiling);
}

} // verus!
