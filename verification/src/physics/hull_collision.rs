//! Simple hull-vs-terrain collision: a handful of fixed hull points are held
//! against the terrain's height; any point below the ground is a crash.

use crate::vector::{vec3, Vec3};
use vstd::prelude::*;

verus! {

/// Hull sample points in the body frame: nose, tail (raised slightly for the
/// fin), left wingtip and right wingtip.
pub fn hull_points() -> (points: [Vec3; 4])
    ensures
        points@[0] == (Vec3 { x: 0, y: 0, z: 6_000_000_000 }),
        points@[1].x == 0 && points@[1].y == 300_000_000 && points@[1].z == -6_000_000_000,
        points@[2].x == -5_500_000_000 && points@[2].y == 0 && points@[2].z == 500_000_000,
        points@[3] == (Vec3 { x: 5_500_000_000, y: 0, z: 500_000_000 }),
{
    [
        vec3(0, 0, 6_000_000_000),
        vec3(0, 300_000_000, -6_000_000_000),
        vec3(-5_500_000_000, 0, 500_000_000),
        vec3(5_500_000_000, 0, 500_000_000),
    ]
}

/// Some point lies below the ground under it.
pub open spec fn struck(heights: Seq<(i64, i64)>) -> bool {
    exists|i: int| 0 <= i < heights.len() && (#[trigger] heights[i]).0 < heights[i].1
}

/// Detects hull strikes. `heights` gives each hull point's height and the ground's
/// height under it. Once set, the crash flag stays; the answer tells whether this
/// is the moment of the crash, at which the aircraft stops dead.
pub fn detect_hull_collision(crashed: &mut bool, heights: &[(i64, i64); 4]) -> (stop: bool)
    ensures
        *final(crashed) == (*old(crashed) || struck(heights@)),
        stop == (!*old(crashed) && struck(heights@)),
{
    if *crashed {
        return false;
    }
    let mut i: usize = 0;
    while i < 4
        invariant
            i <= 4,
            !*crashed,
            !*old(crashed),
            forall|n: int| 0 <= n < i ==> (#[trigger] heights@[n]).0 >= heights@[n].1,
        decreases 4 - i,
    {
        if heights[i].0 < heights[i].1 {
            assert(heights@[i as int].0 < heights@[i as int].1);
            *crashed = true;
            return true;
        }
        i = i + 1;
    }
    false
}

/// The hull is clear of the ground exactly where each of its points is at or above the
/// ground under it; one point below is enough for a strike, wherever the others are.
pub proof fn one_point_below_strikes(heights: Seq<(i64, i64)>, k: int)
    requires
        0 <= k < heights.len(),
    ensures
        heights[k].0 < heights[k].1 ==> struck(heights),
        !struck(heights) <==> forall|i: int|
            0 <= i < heights.len() ==> (#[trigger] heights[i]).0 >= heights[i].1,
{
}

}
