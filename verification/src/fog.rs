//! Tunable atmospheric fog.

use crate::vector::{vec3, Vec3};
use vstd::prelude::*;

verus! {

/// Fog settings. Colours are red, green and blue in `x`, `y` and `z`.
#[derive(Clone, Copy, Debug, PartialEq, Eq, Structural)]
pub struct FogSettings {
    pub enabled: bool,
    /// Distance (m) at which terrain is fully fogged out.
    pub visibility: i64,
    /// Base fog colour.
    pub color: Vec3,
    /// Falloff extinction (near) and inscattering (far) colours.
    pub extinction_color: Vec3,
    pub inscattering_color: Vec3,
    /// Tint and tightness of the glow around the sun direction.
    pub directional_light_color: Vec3,
    pub directional_light_exponent: i64,
}

impl Default for FogSettings {
    fn default() -> (s: Self)
        ensures
            s == (FogSettings {
                enabled: true,
                visibility: 35_000_000_000_000,
                color: Vec3 { x: 550_000_000, y: 680_000_000, z: 820_000_000 },
                extinction_color: Vec3 { x: 350_000_000, y: 500_000_000, z: 660_000_000 },
                inscattering_color: Vec3 { x: 800_000_000, y: 844_000_000, z: 1_000_000_000 },
                directional_light_color: Vec3 {
                    x: 1_000_000_000,
                    y: 950_000_000,
                    z: 850_000_000,
                },
                directional_light_exponent: 4_000_000_000,
            }),
    {
        FogSettings {
            enabled: true,
            visibility: 35_000_000_000_000,
            color: vec3(550_000_000, 680_000_000, 820_000_000),
            extinction_color: vec3(350_000_000, 500_000_000, 660_000_000),
            inscattering_color: vec3(800_000_000, 844_000_000, 1_000_000_000),
            directional_light_color: vec3(1_000_000_000, 950_000_000, 850_000_000),
            directional_light_exponent: 4_000_000_000,
        }
    }
}

/// Visibility that the fog is built with: at least a metre.
pub fn fog_visibility(settings: &FogSettings) -> (v: i64)
    ensures
        v == if settings.visibility > 1_000_000_000 {
            settings.visibility
        } else {
            1_000_000_000
        },
{
    if settings.visibility > 1_000_000_000 {
        settings.visibility
    } else {
        1_000_000_000
    }
}

/// What to do with the camera's fog.
#[derive(Clone, Copy, Debug, PartialEq, Eq, Structural)]
pub enum FogAction {
    Keep,
    Build,
    Remove,
}

/// Keeps the camera's fog in sync with the settings: (re)builds it when the
/// settings change or the camera has none yet, and removes it when fog is
/// disabled. Only touches the camera when something needs to change.
pub fn apply_fog(enabled: bool, changed: bool, has_fog: bool) -> (action: FogAction)
    ensures
        action == FogAction::Build <==> enabled && (changed || !has_fog),
        action == FogAction::Remove <==> !enabled && has_fog,
{
    if enabled {
        if changed || !has_fog {
            FogAction::Build
        } else {
            FogAction::Keep
        }
    } else if has_fog {
        FogAction::Remove
    } else {
        FogAction::Keep
    }
}

/// Whether the camera has fog after the action.
pub open spec fn fogged(action: FogAction, has_fog: bool) -> bool {
    match action {
        FogAction::Keep => has_fog,
        FogAction::Build => true,
        FogAction::Remove => false,
    }
}

/// After the action the camera has fog exactly when fog is enabled.
pub proof fn fog_follows_the_setting(enabled: bool, changed: bool, has_fog: bool, action: FogAction)
    requires
        action == FogAction::Build <==> enabled && (changed || !has_fog),
        action == FogAction::Remove <==> !enabled && has_fog,
    ensures
        fogged(action, has_fog) == enabled,
{
}

/// Toggles fog when its key was pressed.
pub fn toggle_fog(pressed: bool, settings: &mut FogSettings)
    ensures
        *final(settings) == (FogSettings {
            enabled: old(settings).enabled != pressed,
            ..*old(settings)
        }),
{
    if pressed {
        settings.enabled = !settings.enabled;
    }
}

}
