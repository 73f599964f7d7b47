//! Fractal noise: octaves of a noise source summed with doubling frequency
//! and decaying amplitude.
//!
//! The noise source itself is not part of this crate. For each terrain point
//! and octave this module tells where to sample the source, and it blends the
//! samples of a point into one height. Frequencies, amplitudes, the
//! persistence and the samples are in millionths.

use crate::fixed::{clamp_i32, clamp_u64, div_toward_zero, divide_wide, saturate_i32, saturate_u64};
use vstd::prelude::*;

verus! {

/// One, in millionths.
pub const UNIT: u64 = 1_000_000;

/// The parameters of a noise field.
#[derive(Debug, Clone, Copy, PartialEq, Eq, Structural)]
pub struct NoiseField {
    /// Frequency of the first octave, in millionths of a cycle per point.
    pub base_frequency: u64,
    /// Number of octaves.
    pub octaves: u32,
    /// Factor by which the amplitude changes from one octave to the next, in
    /// millionths.
    pub persistence: u64,
}

/// Frequency of the given octave: the base frequency doubled once per
/// octave, clamped into `u64`.
pub open spec fn frequency_at(base: int, octave: nat) -> int
    decreases octave,
{
    if octave == 0 {
        clamp_u64(base)
    } else {
        clamp_u64(2 * frequency_at(base, (octave - 1) as nat))
    }
}

/// Amplitude of the given octave: one for the first, and for each further
/// octave the persistence times the amplitude before, rounded down and
/// clamped into `u64`.
pub open spec fn amplitude_at(persistence: int, octave: nat) -> int
    decreases octave,
{
    if octave == 0 {
        UNIT as int
    } else {
        clamp_u64(amplitude_at(persistence, (octave - 1) as nat) * persistence / 1_000_000)
    }
}

/// The first `n` samples, each times the amplitude of its octave, summed.
pub open spec fn weighted_sum(samples: Seq<i32>, persistence: int, n: nat) -> int
    decreases n,
{
    if n == 0 {
        0
    } else {
        weighted_sum(samples, persistence, (n - 1) as nat) + samples[n - 1] * amplitude_at(
            persistence,
            (n - 1) as nat,
        )
    }
}

/// The amplitudes of the first `n` octaves, summed.
pub open spec fn amplitude_sum(persistence: int, n: nat) -> int
    decreases n,
{
    if n == 0 {
        0
    } else {
        amplitude_sum(persistence, (n - 1) as nat) + amplitude_at(persistence, (n - 1) as nat)
    }
}

/// The noise value that `n` octave samples blend into: their weighted sum
/// over the sum of the weights, rounded toward zero; zero where the weights
/// sum to nothing.
pub open spec fn blended(samples: Seq<i32>, persistence: int, n: nat) -> int {
    if amplitude_sum(persistence, n) <= 0 {
        0
    } else {
        clamp_i32(div_toward_zero(weighted_sum(samples, persistence, n), amplitude_sum(persistence, n)))
    }
}

impl NoiseField {
    /// Number of samples that are blended: one per octave, as far as samples
    /// are given.
    pub open spec fn blend_count(self, samples: Seq<i32>) -> nat {
        if samples.len() < self.octaves {
            samples.len()
        } else {
            self.octaves as nat
        }
    }

    /// Frequency of the given octave, in millionths of a cycle per point.
    pub fn frequency(&self, octave: u32) -> (f: u64)
        ensures
            f == frequency_at(self.base_frequency as int, octave as nat),
    {
        let mut f: u64 = self.base_frequency;
        let mut k: u32 = 0;
        while k < octave
            invariant
                k <= octave,
                f == frequency_at(self.base_frequency as int, k as nat),
            decreases octave - k,
        {
            f = saturate_u64(2 * (f as u128));
            k += 1;
        }
        f
    }

    /// Where to sample the noise source for the given terrain point and
    /// octave: the point's index times the octave's frequency, in millionths,
    /// clamped into `u64`.
    pub fn coordinate(&self, index: usize, octave: u32) -> (c: u64)
        ensures
            c == clamp_u64(index * frequency_at(self.base_frequency as int, octave as nat)),
    {
        let f: u64 = self.frequency(octave);
        assert(index * f <= 0xFFFF_FFFF_FFFF_FFFF * 0xFFFF_FFFF_FFFF_FFFF) by (nonlinear_arith)
            requires
                0 <= index <= 0xFFFF_FFFF_FFFF_FFFF,
                0 <= f <= 0xFFFF_FFFF_FFFF_FFFF,
        ;
        saturate_u64((index as u128) * (f as u128))
    }

    /// Amplitude of the given octave, in millionths.
    pub fn amplitude(&self, octave: u32) -> (a: u64)
        ensures
            a == amplitude_at(self.persistence as int, octave as nat),
    {
        let mut a: u64 = UNIT;
        let mut k: u32 = 0;
        while k < octave
            invariant
                k <= octave,
                a == amplitude_at(self.persistence as int, k as nat),
            decreases octave - k,
        {
            a = saturate_u64(crate::fixed::mul_div(a, self.persistence, UNIT));
            k += 1;
        }
        a
    }

    /// Blends the octave samples of one terrain point into its noise value.
    ///
    /// `samples` holds the sample of each octave in turn, in millionths.
    pub fn blend(&self, samples: &Vec<i32>) -> (r: i32)
        ensures
            r == blended(samples@, self.persistence as int, self.blend_count(samples@)),
    {
        let n: u32 = if samples.len() < self.octaves as usize {
            samples.len() as u32
        } else {
            self.octaves
        };
        let mut weighted: i128 = 0;
        let mut weights: i128 = 0;
        let mut amplitude: u64 = UNIT;
        let mut k: u32 = 0;
        while k < n
            invariant
                k <= n,
                n <= samples@.len(),
                amplitude == amplitude_at(self.persistence as int, k as nat),
                weighted == weighted_sum(samples@, self.persistence as int, k as nat),
                weights == amplitude_sum(self.persistence as int, k as nat),
                -k * 0x8000_0000_0000_0000_0000_0000 <= weighted <= k * 0x8000_0000_0000_0000_0000_0000,
                0 <= weights <= k * 0x1_0000_0000_0000_0000,
            decreases n - k,
        {
            let sample: i32 = samples[k as usize];
            assert(-0x8000_0000_0000_0000_0000_0000 <= sample * amplitude
                <= 0x8000_0000_0000_0000_0000_0000) by (nonlinear_arith)
                requires
                    -0x8000_0000 <= sample <= 0x8000_0000,
                    0 <= amplitude <= 0x1_0000_0000_0000_0000,
            ;
            weighted = weighted + (sample as i128) * (amplitude as i128);
            weights = weights + (amplitude as i128);
            amplitude = saturate_u64(crate::fixed::mul_div(amplitude, self.persistence, UNIT));
            k += 1;
        }
        if weights <= 0 {
            0
        } else {
            saturate_i32(divide_wide(weighted, weights))
        }
    }
}

} // verus!
