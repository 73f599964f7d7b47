//! Integer helpers shared by the simulation: clamping, division that rounds
//! toward zero, and the integer square root.

use vstd::prelude::*;

verus! {

/// Number of fixed-point steps in one unit.
pub const SCALE: i64 = 1000;

/// `x` limited to the range of `i64`.
pub open spec fn clamp_i64(x: int) -> int {
    if x < i64::MIN {
        i64::MIN as int
    } else if x > i64::MAX {
        i64::MAX as int
    } else {
        x
    }
}

/// `x` limited to the range of `u64`.
pub open spec fn clamp_u64(x: int) -> int {
    if x < 0 {
        0
    } else if x > u64::MAX {
        u64::MAX as int
    } else {
        x
    }
}

/// `x` limited to the range of `u32`.
pub open spec fn clamp_u32(x: int) -> int {
    if x < 0 {
        0
    } else if x > u32::MAX {
        u32::MAX as int
    } else {
        x
    }
}

/// The quotient of `a` by a positive `b`, rounded toward zero.
pub open spec fn div_toward_zero(a: int, b: int) -> int
    recommends
        b > 0,
{
    if a >= 0 {
        a / b
    } else {
        -((-a) / b)
    }
}

/// `r` is the integer square root of `n`: the largest number whose square
/// does not exceed `n`.
pub open spec fn is_floor_sqrt(n: nat, r: nat) -> bool {
    r * r <= n < (r + 1) * (r + 1)
}

/// The integer square root of `n`.
pub open spec fn floor_sqrt(n: nat) -> nat {
    choose|r: nat| is_floor_sqrt(n, r)
}

/// Every natural number has an integer square root.
pub proof fn lemma_floor_sqrt_exists(n: nat)
    ensures
        is_floor_sqrt(n, floor_sqrt(n)),
    decreases n,
{
    if n == 0 {
        assert(is_floor_sqrt(0, 0)) by (nonlinear_arith);
    } else {
        lemma_floor_sqrt_exists((n - 1) as nat);
        let r = floor_sqrt((n - 1) as nat);
        if (r + 1) * (r + 1) <= n {
            assert((r + 2) * (r + 2) > n) by (nonlinear_arith)
                requires
                    (r + 1) * (r + 1) > n - 1,
            ;
            assert(is_floor_sqrt(n, r + 1));
        } else {
            assert(is_floor_sqrt(n, r));
        }
    }
}

/// The integer square root is unique.
pub proof fn lemma_floor_sqrt_unique(n: nat, r: nat)
    requires
        is_floor_sqrt(n, r),
    ensures
        r == floor_sqrt(n),
{
    lemma_floor_sqrt_exists(n);
    let s = floor_sqrt(n);
    if r < s {
        assert((r + 1) * (r + 1) <= s * s) by (nonlinear_arith)
            requires
                r + 1 <= s,
        ;
    } else if s < r {
        assert((s + 1) * (s + 1) <= r * r) by (nonlinear_arith)
            requires
                s + 1 <= r,
        ;
    }
}

/// Clamps a wide signed value into `i64`.
pub fn saturate_i64(x: i128) -> (r: i64)
    ensures
        r == clamp_i64(x as int),
{
    if x < i64::MIN as i128 {
        i64::MIN
    } else if x > i64::MAX as i128 {
        i64::MAX
    } else {
        x as i64
    }
}

/// Clamps a wide unsigned value into `u64`.
pub fn saturate_u64(x: u128) -> (r: u64)
    ensures
        r == clamp_u64(x as int),
{
    if x > u64::MAX as u128 {
        u64::MAX
    } else {
        x as u64
    }
}

/// Clamps a wide unsigned value into `u32`.
pub fn saturate_u32(x: u128) -> (r: u32)
    ensures
        r == clamp_u32(x as int),
{
    if x > u32::MAX as u128 {
        u32::MAX
    } else {
        x as u32
    }
}

/// Adds two signed values, clamping the sum into `i64`.
pub fn add_clamped(a: i64, b: i64) -> (r: i64)
    ensures
        r == clamp_i64(a + b),
{
    saturate_i64(a as i128 + b as i128)
}

/// Divides `a` by a positive `b`, rounding toward zero.
pub fn divide_toward_zero(a: i128, b: u64) -> (r: i128)
    requires
        b > 0,
    ensures
        r == div_toward_zero(a as int, b as int),
        a >= 0 ==> 0 <= r <= a,
        a <= 0 ==> a <= r <= 0,
{
    proof {
        let m: int = if a >= 0 { a as int } else { -(a as int) };
        vstd::arithmetic::div_mod::lemma_div_pos_is_pos(m, b as int);
        vstd::arithmetic::div_mod::lemma_div_is_ordered_by_denominator(m, 1, b as int);
        vstd::arithmetic::div_mod::lemma_div_basics(m);
    }
    if a == i128::MIN {
        // -a is not representable; divide the magnitude as unsigned.
        let m: u128 = 1u128 << 127;
        assert(m == 0x8000_0000_0000_0000_0000_0000_0000_0000u128) by (bit_vector)
            requires
                m == 1u128 << 127,
        ;
        let q: u128 = m / (b as u128);
        if q == m {
            i128::MIN
        } else {
            -(q as i128)
        }
    } else {
        a / (b as i128)
    }
}

/// The integer square root of `n`.
pub fn isqrt(n: u128) -> (r: u64)
    ensures
        r == floor_sqrt(n as nat),
        is_floor_sqrt(n as nat, r as nat),
{
    let mut lo: u128 = 0;
    let mut hi: u128 = 0x1_0000_0000_0000_0000;
    assert(hi * hi > n) by (nonlinear_arith)
        requires
            hi == 0x1_0000_0000_0000_0000,
            n <= 0xFFFF_FFFF_FFFF_FFFF_FFFF_FFFF_FFFF_FFFF,
    ;
    while hi - lo > 1
        invariant
            lo < hi <= 0x1_0000_0000_0000_0000,
            lo * lo <= n < hi * hi,
        decreases hi - lo,
    {
        let mid: u128 = lo + (hi - lo) / 2;
        assert(mid * mid <= 0xFFFF_FFFF_FFFF_FFFF * 0xFFFF_FFFF_FFFF_FFFF) by (nonlinear_arith)
            requires
                mid <= 0xFFFF_FFFF_FFFF_FFFF,
        ;
        if mid * mid <= n {
            lo = mid;
        } else {
            hi = mid;
        }
    }
    proof {
        assert(is_floor_sqrt(n as nat, lo as nat));
        lemma_floor_sqrt_unique(n as nat, lo as nat);
    }
    lo as u64
}


/// A share `x` of `d` applied to `r` stays within `r`, is nothing for no
/// share and all of `r` for the full share.
pub proof fn lemma_share_bounded(x: int, d: int, r: int)
    requires
        0 <= x <= d,
        0 < d,
        0 <= r,
    ensures
        0 <= x * r / d <= r,
        x == 0 ==> x * r / d == 0,
        x == d ==> x * r / d == r,
{
    vstd::arithmetic::mul::lemma_mul_nonnegative(x, r);
    vstd::arithmetic::mul::lemma_mul_inequality(x, d, r);
    vstd::arithmetic::div_mod::lemma_div_pos_is_pos(x * r, d);
    vstd::arithmetic::div_mod::lemma_div_is_ordered(x * r, d * r, d);
    vstd::arithmetic::div_mod::lemma_div_by_multiple(r, d);
    vstd::arithmetic::mul::lemma_mul_is_commutative(r, d);
    if x == 0 {
        assert(x * r == 0) by (nonlinear_arith)
            requires
                x == 0,
        ;
    }
}

/// The product of two 64-bit values, divided by a third.
pub fn mul_div(x: u64, r: u64, d: u64) -> (q: u128)
    requires
        d > 0,
    ensures
        q == (x as int) * (r as int) / (d as int),
{
    assert(x * r <= 0xFFFF_FFFF_FFFF_FFFF * 0xFFFF_FFFF_FFFF_FFFF) by (nonlinear_arith)
        requires
            0 <= x <= 0xFFFF_FFFF_FFFF_FFFF,
            0 <= r <= 0xFFFF_FFFF_FFFF_FFFF,
    ;
    (x as u128) * (r as u128) / (d as u128)
}


/// The product of a signed and an unsigned value divided by a positive
/// divisor, rounded toward zero and clamped into `i64`.
pub fn mul_div_clamped(a: i64, b: u64, d: u64) -> (r: i64)
    requires
        d > 0,
    ensures
        r == clamp_i64(div_toward_zero((a as int) * (b as int), d as int)),
{
    assert(-0x8000_0000_0000_0000 * 0xFFFF_FFFF_FFFF_FFFF <= a * b <= 0x7FFF_FFFF_FFFF_FFFF
        * 0xFFFF_FFFF_FFFF_FFFF) by (nonlinear_arith)
        requires
            -0x8000_0000_0000_0000 <= a <= 0x7FFF_FFFF_FFFF_FFFF,
            0 <= b <= 0xFFFF_FFFF_FFFF_FFFF,
    ;
    let product: i128 = (a as i128) * (b as i128);
    saturate_i64(divide_toward_zero(product, d))
}


/// `x` limited to the range of `i32`.
pub open spec fn clamp_i32(x: int) -> int {
    if x < i32::MIN {
        i32::MIN as int
    } else if x > i32::MAX {
        i32::MAX as int
    } else {
        x
    }
}

/// Clamps a wide signed value into `i32`.
pub fn saturate_i32(x: i128) -> (r: i32)
    ensures
        r == clamp_i32(x as int),
{
    if x < i32::MIN as i128 {
        i32::MIN
    } else if x > i32::MAX as i128 {
        i32::MAX
    } else {
        x as i32
    }
}

/// Divides `a` by a positive wide `b`, rounding toward zero.
pub fn divide_wide(a: i128, b: i128) -> (r: i128)
    requires
        b > 0,
    ensures
        r == div_toward_zero(a as int, b as int),
{
    a / b
}

} // verus!
