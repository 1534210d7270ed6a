//! Exterior aircraft lights: navigation lights that are always on, strobes that
//! flash once per period, a beacon that pulses while the engine turns, and a
//! landing light on a switch. Spans are in nanoseconds.

use crate::fixed::{blend_stays_between, floor_div, scale, scaled, ONE};
use crate::physics::aircraft_physics::EngineState;
use crate::physics::flight_config::LightsConfig;
use crate::terrain::runway_fixtures::Colour;
use crate::vector::Vec3;
use vstd::prelude::*;

verus! {

/// The eight exterior lights.
#[derive(Clone, Copy, Debug, PartialEq, Eq, Structural)]
pub enum LightKind {
    NavLeft,
    NavRight,
    NavTail,
    StrobeLeft,
    StrobeRight,
    StrobeTail,
    Beacon,
    Landing,
}

/// One light as it is spawned; the position is in metres.
#[derive(Clone, Copy, Debug, PartialEq, Eq, Structural)]
pub struct ExteriorLight {
    pub kind: LightKind,
    pub colour: Colour,
    pub intensity: i64,
    pub radius: i64,
    pub range: i64,
    pub position: Vec3,
}

/// A position in tenths of metres, in metres.
pub open spec fn in_metres(p: Vec3) -> Vec3 {
    Vec3 { x: (p.x as int / 10) as i64, y: (p.y as int / 10) as i64, z: (p.z as int / 10) as i64 }
}

/// Mount position of a light, in tenths of metres.
pub open spec fn mount_of(c: LightsConfig, kind: LightKind) -> Vec3 {
    match kind {
        LightKind::NavLeft => c.nav_left_pos,
        LightKind::NavRight => c.nav_right_pos,
        LightKind::NavTail => c.nav_tail_pos,
        LightKind::StrobeLeft => c.strobe_left_pos,
        LightKind::StrobeRight => c.strobe_right_pos,
        LightKind::StrobeTail => c.strobe_tail_pos,
        LightKind::Beacon => c.beacon_pos,
        LightKind::Landing => c.landing_pos,
    }
}

/// A light as it is spawned: red left, green right and white tail navigation
/// lights at full brightness; strobes, red beacon and landing light dark.
pub open spec fn light_of(c: LightsConfig, kind: LightKind) -> ExteriorLight {
    let white = Colour { r: 1_000_000_000, g: 1_000_000_000, b: 1_000_000_000 };
    let red = Colour { r: 1_000_000_000, g: 50_000_000, b: 50_000_000 };
    let green = Colour { r: 50_000_000, g: 1_000_000_000, b: 150_000_000 };
    let warm = Colour { r: 1_000_000_000, g: 980_000_000, b: 920_000_000 };
    ExteriorLight {
        kind,
        colour: match kind {
            LightKind::NavLeft => red,
            LightKind::NavRight => green,
            LightKind::Beacon => red,
            LightKind::Landing => warm,
            _ => white,
        },
        intensity: match kind {
            LightKind::NavLeft => c.nav_intensity,
            LightKind::NavRight => c.nav_intensity,
            LightKind::NavTail => c.nav_intensity,
            _ => 0,
        },
        radius: match kind {
            LightKind::NavLeft => 50_000_000,
            LightKind::NavRight => 50_000_000,
            LightKind::NavTail => 50_000_000,
            _ => 100_000_000,
        },
        range: match kind {
            LightKind::NavLeft => 80_000_000_000,
            LightKind::NavRight => 80_000_000_000,
            LightKind::NavTail => 80_000_000_000,
            LightKind::Beacon => 150_000_000_000,
            LightKind::Landing => 600_000_000_000,
            _ => 300_000_000_000,
        },
        position: in_metres(mount_of(c, kind)),
    }
}

/// The mount position of a light, in metres.
pub fn light_position(config: &LightsConfig, kind: LightKind) -> (p: Vec3)
    ensures
        p == in_metres(mount_of(*config, kind)),
{
    let m: Vec3 = match kind {
        LightKind::NavLeft => config.nav_left_pos,
        LightKind::NavRight => config.nav_right_pos,
        LightKind::NavTail => config.nav_tail_pos,
        LightKind::StrobeLeft => config.strobe_left_pos,
        LightKind::StrobeRight => config.strobe_right_pos,
        LightKind::StrobeTail => config.strobe_tail_pos,
        LightKind::Beacon => config.beacon_pos,
        LightKind::Landing => config.landing_pos,
    };
    Vec3 {
        x: floor_div(m.x as i128, 10) as i64,
        y: floor_div(m.y as i128, 10) as i64,
        z: floor_div(m.z as i128, 10) as i64,
    }
}

fn build_light(config: &LightsConfig, kind: LightKind) -> (light: ExteriorLight)
    ensures
        light == light_of(*config, kind),
{
    let is_nav: bool = match kind {
        LightKind::NavLeft => true,
        LightKind::NavRight => true,
        LightKind::NavTail => true,
        _ => false,
    };
    let colour: Colour = match kind {
        LightKind::NavLeft => Colour { r: 1_000_000_000, g: 50_000_000, b: 50_000_000 },
        LightKind::NavRight => Colour { r: 50_000_000, g: 1_000_000_000, b: 150_000_000 },
        LightKind::Beacon => Colour { r: 1_000_000_000, g: 50_000_000, b: 50_000_000 },
        LightKind::Landing => Colour { r: 1_000_000_000, g: 980_000_000, b: 920_000_000 },
        _ => Colour { r: 1_000_000_000, g: 1_000_000_000, b: 1_000_000_000 },
    };
    let range: i64 = match kind {
        LightKind::Beacon => 150_000_000_000,
        LightKind::Landing => 600_000_000_000,
        _ => if is_nav {
            80_000_000_000
        } else {
            300_000_000_000
        },
    };
    ExteriorLight {
        kind,
        colour,
        intensity: if is_nav {
            config.nav_intensity
        } else {
            0
        },
        radius: if is_nav {
            50_000_000
        } else {
            100_000_000
        },
        range,
        position: light_position(config, kind),
    }
}

/// All exterior lights, in the order left, right and tail navigation light, left,
/// right and tail strobe, beacon, landing light.
pub fn aircraft_lights(config: &LightsConfig) -> (lights: [ExteriorLight; 8])
    ensures
        lights@ == seq![
            light_of(*config, LightKind::NavLeft),
            light_of(*config, LightKind::NavRight),
            light_of(*config, LightKind::NavTail),
            light_of(*config, LightKind::StrobeLeft),
            light_of(*config, LightKind::StrobeRight),
            light_of(*config, LightKind::StrobeTail),
            light_of(*config, LightKind::Beacon),
            light_of(*config, LightKind::Landing),
        ],
{
    let lights: [ExteriorLight; 8] = [
        build_light(config, LightKind::NavLeft),
        build_light(config, LightKind::NavRight),
        build_light(config, LightKind::NavTail),
        build_light(config, LightKind::StrobeLeft),
        build_light(config, LightKind::StrobeRight),
        build_light(config, LightKind::StrobeTail),
        build_light(config, LightKind::Beacon),
        build_light(config, LightKind::Landing),
    ];
    lights
}

/// Per-aircraft light timing.
#[derive(Clone, Copy, Debug, PartialEq, Eq, Structural)]
pub struct LightTimers {
    /// Time within the current strobe period.
    pub strobe_t: u64,
    /// Time within the current beacon period.
    pub beacon_t: u64,
    pub landing_light_on: bool,
}

impl Default for LightTimers {
    fn default() -> (t: Self)
        ensures
            t == (LightTimers { strobe_t: 0, beacon_t: 0, landing_light_on: true }),
    {
        LightTimers { strobe_t: 0, beacon_t: 0, landing_light_on: true }
    }
}

/// Toggles the landing light when its key was pressed.
pub fn toggle_landing_light(pressed: bool, timers: &mut LightTimers)
    ensures
        *final(timers) == (LightTimers {
            landing_light_on: old(timers).landing_light_on != pressed,
            ..*old(timers)
        }),
{
    if pressed {
        timers.landing_light_on = !timers.landing_light_on;
    }
}

fn wrapped(t: u64, dt: u64, period: i64) -> (r: u64)
    requires
        period > 0,
    ensures
        r == (t + dt) % (period as int),
{
    let sum: u128 = t as u128 + dt as u128;
    (sum % period as u128) as u64
}

/// Clock and brightness of the strobes after a frame.
pub open spec fn strobes(
    after: LightTimers,
    intensity: int,
    config: LightsConfig,
    timers: LightTimers,
    dt: int,
) -> bool {
    &&& after == (LightTimers {
        strobe_t: ((timers.strobe_t + dt) % (config.strobe_period as int)) as u64,
        ..timers
    })
    &&& intensity == if after.strobe_t < config.strobe_on_time {
        config.strobe_intensity as int
    } else {
        0
    }
}

/// Drives the strobes: a brief bright flash once per period. Gives their
/// brightness.
pub fn animate_strobes(config: &LightsConfig, timers: &mut LightTimers, dt: u64) -> (intensity: i64)
    requires
        config.strobe_period > 0,
    ensures
        strobes(*final(timers), intensity as int, *config, *old(timers), dt as int),
        final(timers).strobe_t < config.strobe_period,
{
    timers.strobe_t = wrapped(timers.strobe_t, dt, config.strobe_period);
    if (timers.strobe_t as i128) < config.strobe_on_time as i128 {
        config.strobe_intensity
    } else {
        0
    }
}

/// The engine turns, on its own or by the starter.
pub open spec fn turning(state: EngineState) -> bool {
    state == EngineState::Running || state == EngineState::Cranking
}

/// Clock and phase of the beacon after a frame.
pub open spec fn beacons(
    after: LightTimers,
    phase: Option<i64>,
    config: LightsConfig,
    timers: LightTimers,
    state: EngineState,
    dt: int,
) -> bool {
    if turning(state) {
        &&& after == (LightTimers {
            beacon_t: ((timers.beacon_t + dt) % (config.beacon_period as int)) as u64,
            ..timers
        })
        &&& phase matches Some(p)
        &&& p == (after.beacon_t * ONE) / (config.beacon_period as int)
    } else {
        phase is None && after == timers
    }
}

/// Drives the beacon: while the engine turns, the phase of its pulse as a
/// fraction of the period; dark otherwise, and its clock stands still.
pub fn animate_beacon(config: &LightsConfig, timers: &mut LightTimers, state: EngineState, dt: u64) -> (
phase: Option<i64>)
    requires
        config.beacon_period > 0,
    ensures
        beacons(*final(timers), phase, *config, *old(timers), state, dt as int),
        phase matches Some(p) ==> 0 <= p < ONE,
{
    let on: bool = match state {
        EngineState::Off => false,
        EngineState::Cranking => true,
        EngineState::Running => true,
    };
    if !on {
        return None;
    }
    timers.beacon_t = wrapped(timers.beacon_t, dt, config.beacon_period);
    let n: i128 = timers.beacon_t as i128 * 1_000_000_000;
    let period: i128 = config.beacon_period as i128;
    proof {
        let q = (n as int) / (period as int);
        let r = (n as int) % (period as int);
        vstd::arithmetic::div_mod::lemma_fundamental_div_mod(n as int, period as int);
        assert(0 <= q < 1_000_000_000) by (nonlinear_arith)
            requires
                n == period * q + r,
                0 <= r < period,
                0 <= n < period * 1_000_000_000,
                period > 0,
        ;
    }
    Some((n / period) as i64)
}

/// The beacon's brightness for the cosine of its phase: a cosine lifted to between
/// zero and one and sharpened into a spike.
pub open spec fn pulse(cos: int, intensity: int) -> int {
    let lifted = (cos + ONE) / 2;
    scaled(scaled(scaled(lifted, lifted), lifted), intensity)
}

/// The beacon's brightness for the cosine of its phase.
pub fn beacon_intensity(cos: i64, intensity: i64) -> (r: i64)
    requires
        -ONE <= cos <= ONE,
        0 <= intensity,
    ensures
        r == pulse(cos as int, intensity as int),
        0 <= r <= intensity,
{
    let lifted: i64 = (cos + ONE) / 2;
    proof {
        blend_stays_between(0, lifted as int, lifted as int);
    }
    let square: i64 = scale(lifted, lifted) as i64;
    proof {
        blend_stays_between(0, square as int, lifted as int);
    }
    let cube: i64 = scale(square, lifted) as i64;
    proof {
        assert(cube * intensity == intensity * cube) by (nonlinear_arith);
        blend_stays_between(0, intensity as int, cube as int);
    }
    scale(cube, intensity) as i64
}

/// Brightness of the landing light, given whether there is an aircraft and
/// whether its switch is on.
pub fn landing_intensity(config: &LightsConfig, switch: Option<bool>) -> (intensity: i64)
    ensures
        intensity == if switch == Some(true) {
            config.landing_intensity
        } else {
            0
        },
{
    match switch {
        Some(on) => if on {
            config.landing_intensity
        } else {
            0
        },
        None => 0,
    }
}

}
