//! Aerodynamic surfaces: what moves them, and which flow regime they are in.

use super::aero_surface_config::AeroSurfaceConfig;
use crate::fixed::{clamp, clamped, ONE};
use vstd::prelude::*;

verus! {

/// The control that a surface answers to.
#[derive(Debug, Clone, Copy, PartialEq, Eq, Structural)]
pub enum ControlInputType {
    Pitch,
    Yaw,
    Roll,
    Flap,
}

/// One surface. `flap_angle` is its deflection in nanoradians.
#[derive(Debug, Clone, Copy, PartialEq, Eq, Structural)]
pub struct AeroSurface {
    pub config: AeroSurfaceConfig,
    pub is_control_surface: bool,
    pub input_type: ControlInputType,
    pub input_multiplier: i64,
    pub flap_angle: i64,
}

/// Largest deflection: 50 degrees.
pub const MAX_DEFLECTION: i64 = 872_664_626;

impl AeroSurface {
    /// A fixed surface.
    pub fn wing(config: AeroSurfaceConfig) -> (s: Self)
        ensures
            s == (AeroSurface {
                config,
                is_control_surface: false,
                input_type: ControlInputType::Roll,
                input_multiplier: ONE,
                flap_angle: 0,
            }),
    {
        AeroSurface {
            config,
            is_control_surface: false,
            input_type: ControlInputType::Roll,
            input_multiplier: ONE,
            flap_angle: 0,
        }
    }

    /// A surface that answers to a control.
    pub fn control(config: AeroSurfaceConfig, input_type: ControlInputType, multiplier: i64) -> (s:
        Self)
        ensures
            s == (AeroSurface {
                config,
                is_control_surface: true,
                input_type,
                input_multiplier: multiplier,
                flap_angle: 0,
            }),
    {
        AeroSurface {
            config,
            is_control_surface: true,
            input_type,
            input_multiplier: multiplier,
            flap_angle: 0,
        }
    }

    /// Deflects the surface, up to [`MAX_DEFLECTION`] either way.
    pub fn set_flap_angle(&mut self, angle: i128)
        ensures
            *final(self) == (AeroSurface {
                flap_angle: clamped(
                    angle as int,
                    -MAX_DEFLECTION as int,
                    MAX_DEFLECTION as int,
                ) as i64,
                ..*old(self)
            }),
    {
        self.flap_angle = clamp(angle, -MAX_DEFLECTION, MAX_DEFLECTION);
    }
}

/// The flow over a surface: attached, separated, or in transition past the upper
/// or the lower stall angle.
#[derive(Debug, Clone, Copy, PartialEq, Eq, Structural)]
pub enum FlowRegime {
    Attached,
    Stalled,
    LeavingHigh,
    LeavingLow,
}

/// The regime at an angle of attack, given the stall angles and the angles at
/// which the transition past each of them ends.
pub open spec fn regime_of(
    aoa: int,
    stall_high: int,
    stall_low: int,
    padded_high: int,
    padded_low: int,
) -> FlowRegime {
    if stall_low < aoa < stall_high {
        FlowRegime::Attached
    } else if aoa > padded_high || aoa < padded_low {
        FlowRegime::Stalled
    } else if aoa > stall_high {
        FlowRegime::LeavingHigh
    } else {
        FlowRegime::LeavingLow
    }
}

/// Which set of coefficients applies at an angle of attack.
pub fn flow_regime(
    aoa: i64,
    stall_high: i64,
    stall_low: i64,
    padded_high: i64,
    padded_low: i64,
) -> (regime: FlowRegime)
    ensures
        regime == regime_of(
            aoa as int,
            stall_high as int,
            stall_low as int,
            padded_high as int,
            padded_low as int,
        ),
{
    if aoa < stall_high && aoa > stall_low {
        FlowRegime::Attached
    } else if aoa > padded_high || aoa < padded_low {
        FlowRegime::Stalled
    } else if aoa > stall_high {
        FlowRegime::LeavingHigh
    } else {
        FlowRegime::LeavingLow
    }
}

/// Between its two stall angles a surface never stalls, and past the end of the
/// transition it always has.
pub proof fn stall_is_where_it_should_be(
    aoa: int,
    stall_high: int,
    stall_low: int,
    padded_high: int,
    padded_low: int,
)
    requires
        padded_low <= stall_low < stall_high <= padded_high,
    ensures
        stall_low < aoa < stall_high <==> regime_of(
            aoa,
            stall_high,
            stall_low,
            padded_high,
            padded_low,
        ) == FlowRegime::Attached,
        (aoa > padded_high || aoa < padded_low) <==> regime_of(
            aoa,
            stall_high,
            stall_low,
            padded_high,
            padded_low,
        ) == FlowRegime::Stalled,
{
}

/// The largest share of the flap's lift that still counts at the stall: one for
/// small flaps, falling to zero for large ones.
pub open spec fn max_lift_share(flap_fraction: int) -> int {
    clamped(ONE - (5 * (flap_fraction - 100_000_000)) / 3, 0, ONE as int)
}

/// [`max_lift_share`] of a surface.
pub fn lift_coeff_max_fraction(flap_fraction: i64) -> (share: i64)
    ensures
        share == max_lift_share(flap_fraction as int),
        0 <= share <= ONE,
{
    let excess: i128 = 5 * (flap_fraction as i128 - 100_000_000);
    clamp(1_000_000_000 - crate::fixed::floor_div(excess, 3), 0, 1_000_000_000)
}

}
