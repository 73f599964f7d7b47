//! Two-dimensional vectors with integer components.

use crate::fixed::{add_clamped, clamp_i64, floor_sqrt, isqrt};
use vstd::prelude::*;

verus! {

/// A vector in the plane. The unit of the components is that of the quantity
/// the vector stands for.
#[derive(Debug, Clone, Copy, PartialEq, Eq, Structural)]
pub struct Vec2 {
    pub x: i64,
    pub y: i64,
}

impl Vec2 {
    /// The square of the vector's length.
    pub open spec fn length_squared(self) -> nat {
        (self.x * self.x + self.y * self.y) as nat
    }

    /// The vector's length, rounded down.
    pub open spec fn magnitude(self) -> nat {
        floor_sqrt(self.length_squared())
    }

    /// The sum of two vectors, each component clamped into `i64`.
    pub open spec fn plus(self, other: Vec2) -> Vec2 {
        Vec2 { x: clamp_i64(self.x + other.x) as i64, y: clamp_i64(self.y + other.y) as i64 }
    }

    /// The vector with the given components.
    pub fn new(x: i64, y: i64) -> (v: Vec2)
        ensures
            v == (Vec2 { x, y }),
    {
        Vec2 { x, y }
    }

    /// The null vector.
    pub fn zero() -> (v: Vec2)
        ensures
            v == (Vec2 { x: 0, y: 0 }),
    {
        Vec2 { x: 0, y: 0 }
    }

    /// The square of the vector's length.
    pub fn squared_length(&self) -> (r: u128)
        ensures
            r == self.length_squared(),
    {
        assert(0 <= self.x * self.x <= 0x8000_0000_0000_0000 * 0x8000_0000_0000_0000)
            by (nonlinear_arith)
            requires
                -0x8000_0000_0000_0000 <= self.x <= 0x7FFF_FFFF_FFFF_FFFF,
        ;
        assert(0 <= self.y * self.y <= 0x8000_0000_0000_0000 * 0x8000_0000_0000_0000)
            by (nonlinear_arith)
            requires
                -0x8000_0000_0000_0000 <= self.y <= 0x7FFF_FFFF_FFFF_FFFF,
        ;
        let xx: i128 = (self.x as i128) * (self.x as i128);
        let yy: i128 = (self.y as i128) * (self.y as i128);
        (xx as u128) + (yy as u128)
    }

    /// The vector's length, rounded down.
    pub fn length(&self) -> (r: u64)
        ensures
            r == self.magnitude(),
    {
        isqrt(self.squared_length())
    }

    /// The sum of two vectors, each component clamped into `i64`.
    pub fn saturating_add(&self, other: Vec2) -> (v: Vec2)
        ensures
            v == self.plus(other),
    {
        Vec2 { x: add_clamped(self.x, other.x), y: add_clamped(self.y, other.y) }
    }
}

} // verus!
