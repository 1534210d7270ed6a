//! Degrees and radians, both with nine decimals.

use crate::fixed::floor_div;
use crate::terrain::runway::HALF_TURN;
use vstd::prelude::*;

verus! {

/// Radians as degrees.
pub open spec fn degrees(rad: int) -> int {
    (rad * 180_000_000_000) / (HALF_TURN as int)
}

/// Radians as degrees.
pub fn to_degrees(rad: i64) -> (deg: i128)
    ensures
        deg == degrees(rad as int),
{
    floor_div(rad as i128 * 180_000_000_000, HALF_TURN as i128)
}

/// Degrees as radians, to the nearest nanoradian.
pub open spec fn radians(deg: int) -> int {
    (deg * HALF_TURN + 90_000_000_000) / 180_000_000_000
}

/// Degrees as radians, to the nearest nanoradian.
pub fn to_radians(deg: i64) -> (rad: i64)
    requires
        -1_000_000_000_000 <= deg <= 1_000_000_000_000,
    ensures
        rad == radians(deg as int),
{
    floor_div(deg as i128 * 3_141_592_654 + 90_000_000_000, 180_000_000_000) as i64
}

/// A half turn is 180 degrees, and the two conversions keep the sign.
pub proof fn half_turn_is_180_degrees(a: int)
    ensures
        degrees(HALF_TURN as int) == 180_000_000_000,
        radians(180_000_000_000) == HALF_TURN,
        a >= 0 ==> degrees(a) >= 0 && radians(a) >= 0,
        a <= 0 ==> degrees(a) <= 0 && radians(a) <= 0,
{
}

/// A full turn is 2π radians or 360 degrees: the two measures of an angle are in that
/// proportion.
pub proof fn measures_are_in_proportion(a: int)
    ensures
        degrees(a) * 3_141_592_654 <= a * 180_000_000_000 < (degrees(a) + 1) * 3_141_592_654,
        -180_000_000_000 <= 2 * (radians(a) * 180_000_000_000 - a * 3_141_592_654)
            <= 180_000_000_000,
{
}

}
