//! Geometry and stall behaviour of one aerodynamic surface.

use crate::fixed::{floor_div, ONE};
use vstd::prelude::*;

verus! {

/// A full turn in nanoradians: the lift slope of a thin wing.
pub const TAU: i64 = 6_283_185_307;

/// Angles are in degrees, lengths in metres, all with nine decimals.
#[derive(Clone, Copy, Debug, PartialEq, Eq, Structural)]
pub struct AeroSurfaceConfig {
    pub lift_slope: i64,
    pub skin_friction: i64,
    pub zero_lift_aoa: i64,
    pub stall_angle_high: i64,
    pub stall_angle_low: i64,
    pub chord: i64,
    pub flap_fraction: i64,
    pub span: i64,
    pub aspect_ratio: i64,
}

/// Span over chord.
pub open spec fn aspect(span: int, chord: int) -> int {
    (span * ONE) / chord
}

impl Default for AeroSurfaceConfig {
    fn default() -> (config: Self)
        ensures
            config.lift_slope == TAU,
            config.skin_friction == 20_000_000,
            config.zero_lift_aoa == -3_000_000_000,
            config.stall_angle_high == 17_000_000_000,
            config.stall_angle_low == -17_000_000_000,
            config.chord == 1_570_000_000,
            config.flap_fraction == 0,
            config.span == 2_100_000_000,
            config.aspect_ratio == aspect(2_100_000_000, 1_570_000_000),
    {
        AeroSurfaceConfig {
            lift_slope: TAU,
            skin_friction: 20_000_000,
            zero_lift_aoa: -3_000_000_000,
            stall_angle_high: 17_000_000_000,
            stall_angle_low: -17_000_000_000,
            chord: 1_570_000_000,
            flap_fraction: 0,
            span: 2_100_000_000,
            aspect_ratio: 1_337_579_617,
        }
    }
}

impl AeroSurfaceConfig {
    /// A symmetric tail surface of the given size.
    pub fn stabilizer(span: i64, chord: i64) -> (config: Self)
        requires
            -1_000_000_000_000 <= span <= 1_000_000_000_000,
            chord >= 1_000_000,
        ensures
            config.lift_slope == TAU,
            config.skin_friction == 20_000_000,
            config.zero_lift_aoa == 0,
            config.stall_angle_high == 15_000_000_000,
            config.stall_angle_low == -15_000_000_000,
            config.chord == chord,
            config.flap_fraction == 350_000_000,
            config.span == span,
            config.aspect_ratio == aspect(span as int, chord as int),
    {
        let n: i128 = span as i128 * 1_000_000_000;
        let q: i128 = floor_div(n, chord as i128);
        proof {
            let d = chord as int;
            vstd::arithmetic::div_mod::lemma_fundamental_div_mod(n as int, d);
            let r = (n as int) % d;
            assert(-1_000_000_000_000_001 <= q <= 1_000_000_000_000_001) by (nonlinear_arith)
                requires
                    n == d * q + r,
                    0 <= r < d,
                    d >= 1_000_000,
                    -1_000_000_000_000_000_000_000 <= n <= 1_000_000_000_000_000_000_000,
            ;
        }
        AeroSurfaceConfig {
            lift_slope: TAU,
            skin_friction: 20_000_000,
            zero_lift_aoa: 0,
            stall_angle_high: 15_000_000_000,
            stall_angle_low: -15_000_000_000,
            chord,
            flap_fraction: 350_000_000,
            span,
            aspect_ratio: q as i64,
        }
    }
}

}
