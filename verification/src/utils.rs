//! Conversion between world and screen coordinates.

use crate::fixed::{clamp_i64, div_toward_zero, saturate_i64};
use crate::vector::Vec2;
use vstd::prelude::*;

verus! {

/// The screen position of a world position: the world's origin lies at the
/// centre of the screen, and heights grow upward in the world and downward
/// on the screen.
pub open spec fn screen_position(position: Vec2, screen_width: int, screen_height: int) -> Vec2 {
    Vec2 {
        x: clamp_i64(position.x + div_toward_zero(screen_width, 2)) as i64,
        y: clamp_i64(div_toward_zero(screen_height, 2) - position.y) as i64,
    }
}

/// Converts a world position into a screen position.
pub fn transform_axes(position: Vec2, screen_width: i64, screen_height: i64) -> (r: Vec2)
    ensures
        r == screen_position(position, screen_width as int, screen_height as int),
{
    Vec2 {
        x: saturate_i64(position.x as i128 + (screen_width / 2) as i128),
        y: saturate_i64((screen_height / 2) as i128 - position.y as i128),
    }
}

} // verus!
