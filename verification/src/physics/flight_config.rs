//! Tunable flight-model constants.
//!
//! All physics and controller rules read from [`FlightModelConfig`], so that the
//! tuning panel can change them at runtime. Numbers have nine decimals.

use super::aero_surface_config::{aspect, AeroSurfaceConfig, TAU};
use crate::vector::{vec3, Vec3};
use vstd::prelude::*;

verus! {

/// All tunable constants for the flight model, grouped by subsystem. `Default`
/// holds the hand-tuned values.
#[derive(Clone, Copy, Debug, PartialEq, Eq, Structural)]
pub struct FlightModelConfig {
    /// Elevator deflection scale applied to the pitch input axis.
    pub pitch_sensitivity: i64,
    /// Aileron deflection scale applied to the roll input axis.
    pub roll_sensitivity: i64,
    /// Rudder deflection scale applied to the yaw input axis.
    pub yaw_sensitivity: i64,
    /// Throttle change per second (one half is full range in 2 s).
    pub throttle_rate: i64,
    /// Servo first-order time constant (s). Smaller is snappier.
    pub servo_tau: i64,
    /// Static elevator trim offset (rad). Positive pitches nose up.
    pub elevator_trim: i64,
    /// Supplemental rotational damping per axis (x roll, y yaw, z pitch), on top
    /// of what the surfaces themselves give.
    pub aero_damp: Vec3,
    /// Fuselage form drag as Cd times area per body axis (x side, y belly, z
    /// nose). The nose is streamlined; the flanks and belly are not.
    pub fuselage_drag: Vec3,
    /// Sea-level air density (kg/m^3).
    pub air_density: i64,
    /// Gravitational acceleration (m/s^2).
    pub gravity: i64,
    /// Fraction of the time step used for the velocity prediction: one half is
    /// the midpoint.
    pub prediction_fraction: i64,
    /// Ground-effect strength; zero is off.
    pub ground_effect_strength: i64,
    /// Reference wingspan (m) that sets how high the ground cushion reaches.
    pub ground_effect_span: i64,
    /// Roll auto-level strength, while no roll input is active.
    pub auto_level_strength: i64,
    /// Pitch stabilisation strength, while no pitch input is active.
    pub pitch_assist_strength: i64,
    /// Pitch rate damping, whatever the attitude.
    pub pitch_rate_damp: i64,
    /// Bank-to-turn strength.
    pub bank_turn_strength: i64,
    /// Maximum static thrust at full throttle (N), at `prop_max_rps`.
    pub thrust_max: i64,
    /// Engine spool-up time constant (s).
    pub engine_spool_up_tau: i64,
    /// Engine spool-down time constant (s).
    pub engine_spool_down_tau: i64,
    /// Starter cranking speed (rev/s).
    pub engine_crank_rps: i64,
    /// Cranking time before the engine catches (s).
    pub engine_start_secs: i64,
    pub propeller: PropellerConfig,
    pub landing_gear: LandingGearConfig,
    pub lights: LightsConfig,
    /// Empty (zero-fuel, no occupants, no baggage) airframe mass (kg). The load is
    /// added on top in [`FlightModelConfig::loaded_mass_properties`].
    pub mass: i64,
    /// Empty-airframe principal moments of inertia about the body axes (kg m^2):
    /// x pitch, y yaw, z roll. The load adds to these via the parallel-axis
    /// theorem.
    pub angular_inertia: Vec3,
    /// Velocity-independent angular damping (1/s).
    pub angular_damping: i64,
    pub cargo: CargoConfig,
    /// Offset of the visible model from the physics origin, in tenths of metres.
    pub model_offset: Vec3,
    /// Center of mass in tenths of metres: z forward, y up.
    pub center_of_mass: Vec3,
    /// Wing rigging incidence (degrees), nose-up positive.
    pub wing_incidence: i64,
    /// Main wing panels, which carry the flaps.
    pub wing: AeroSurfaceConfig,
    /// Outboard aileron panels.
    pub aileron: AeroSurfaceConfig,
    /// Horizontal stabilizer and elevator.
    pub elevator: AeroSurfaceConfig,
    /// Vertical stabilizer and rudder.
    pub rudder: AeroSurfaceConfig,
    /// Fuselage lift surfaces: small non-control panels at the body.
    pub body_lift: AeroSurfaceConfig,
}

/// What the aircraft carries.
#[derive(Clone, Copy, Debug, PartialEq, Eq, Structural)]
pub struct CargoConfig {
    /// Left wing-tank fuel (kg). Independent of the right tank, so an imbalance
    /// offsets the center of mass laterally.
    pub fuel_left_kg: i64,
    /// Right wing-tank fuel (kg).
    pub fuel_right_kg: i64,
    /// Baggage (kg), aft of the rear seats.
    pub cargo_kg: i64,
    /// Number of occupants, filled pilot, front right, rear seats.
    pub passengers: u32,
}

/// The propeller.
#[derive(Clone, Copy, Debug, PartialEq, Eq, Structural)]
pub struct PropellerConfig {
    /// Spin rate at zero throttle (rev/s).
    pub prop_idle_rps: i64,
    /// Spin rate at full throttle (rev/s).
    pub prop_max_rps: i64,
    /// Axis the propeller node spins about.
    pub prop_spin_axis: Vec3,
    /// Position in tenths of metres, relative to the aircraft origin.
    pub prop_position: Vec3,
    /// Disc radius (m).
    pub prop_radius: i64,
    /// Airspeed (m/s) at which the fixed-pitch propeller gives no net thrust.
    pub prop_zero_thrust_speed: i64,
}

/// The landing gear.
#[derive(Clone, Copy, Debug, PartialEq, Eq, Structural)]
pub struct LandingGearConfig {
    /// Suspension stiffness per strut (N/m).
    pub gear_spring: i64,
    /// Suspension damping per strut (N s/m).
    pub gear_damping: i64,
    /// Main strut natural length (m).
    pub gear_rest_length: i64,
    /// Nose strut natural length (m).
    pub gear_nose_rest_length: i64,
    /// Lateral tyre grip (N s/m), capped by the strut's normal load.
    pub gear_grip: i64,
    /// Rolling resistance as a fraction of the strut's normal load.
    pub gear_rolling_resistance: i64,
    /// Extra rolling resistance while the brakes are held.
    pub gear_brake_strength: i64,
    /// Nose-wheel station forward of the origin (m).
    pub gear_nose_z: i64,
    /// Main-gear station forward of the origin (m).
    pub gear_main_z: i64,
    /// Lateral distance between the two main wheels (m).
    pub gear_track: i64,
    /// Nose-strut mount height above the origin (m).
    pub gear_nose_mount_height: i64,
    /// Main-strut mount height above the origin (m).
    pub gear_main_mount_height: i64,
}

/// Positions and intensities of the exterior lights. Positions are in tenths of
/// metres relative to the aircraft root, times in seconds.
#[derive(Clone, Copy, Debug, PartialEq, Eq, Structural)]
pub struct LightsConfig {
    pub nav_left_pos: Vec3,
    pub nav_right_pos: Vec3,
    pub nav_tail_pos: Vec3,
    pub strobe_left_pos: Vec3,
    pub strobe_right_pos: Vec3,
    pub strobe_tail_pos: Vec3,
    /// Period between flashes.
    pub strobe_period: i64,
    /// How long each flash stays lit.
    pub strobe_on_time: i64,
    pub beacon_pos: Vec3,
    /// Beacon pulse period.
    pub beacon_period: i64,
    pub landing_pos: Vec3,
    /// Degrees, positive nose-down.
    pub landing_pitch_deg: i64,
    /// Outer cone half-angle (degrees).
    pub landing_outer_deg: i64,
    /// Inner cone half-angle (degrees).
    pub landing_inner_deg: i64,
    pub landing_intensity: i64,
    pub nav_intensity: i64,
    pub strobe_intensity: i64,
    pub beacon_intensity: i64,
}

/// The vector is made of these components.
pub open spec fn is_vec(v: Vec3, x: int, y: int, z: int) -> bool {
    v.x == x && v.y == y && v.z == z
}

impl Default for CargoConfig {
    fn default() -> (c: Self)
        ensures
            c.fuel_left_kg == 25_000_000_000,
            c.fuel_right_kg == 25_000_000_000,
            c.cargo_kg == 0,
            c.passengers == 1,
    {
        CargoConfig {
            fuel_left_kg: 25_000_000_000,
            fuel_right_kg: 25_000_000_000,
            cargo_kg: 0,
            passengers: 1,
        }
    }
}

impl Default for PropellerConfig {
    fn default() -> (c: Self)
        ensures
            c.prop_idle_rps == 11_000_000_000,
            c.prop_max_rps == 45_000_000_000,
            is_vec(c.prop_spin_axis, 0, 0, 1_000_000_000),
            is_vec(c.prop_position, 0, 3_500_000_000, 33_000_000_000),
            c.prop_radius == 940_000_000,
            c.prop_zero_thrust_speed == 82_000_000_000,
    {
        PropellerConfig {
            prop_idle_rps: 11_000_000_000,
            prop_max_rps: 45_000_000_000,
            prop_spin_axis: vec3(0, 0, 1_000_000_000),
            prop_position: vec3(0, 3_500_000_000, 33_000_000_000),
            prop_radius: 940_000_000,
            prop_zero_thrust_speed: 82_000_000_000,
        }
    }
}

impl Default for LandingGearConfig {
    fn default() -> (c: Self)
        ensures
            c.gear_spring == 120_000_000_000_000,
            c.gear_damping == 15_000_000_000_000,
            c.gear_rest_length == 1_100_000_000,
            c.gear_nose_rest_length == 1_100_000_000,
            c.gear_grip == 6_000_000_000_000,
            c.gear_rolling_resistance == 10_000_000,
            c.gear_brake_strength == 650_000_000,
            c.gear_nose_z == 2_350_000_000,
            c.gear_main_z == 200_000_000,
            c.gear_track == 2_500_000_000,
            c.gear_nose_mount_height == -150_000_000,
            c.gear_main_mount_height == -150_000_000,
    {
        LandingGearConfig {
            gear_spring: 120_000_000_000_000,
            gear_damping: 15_000_000_000_000,
            gear_rest_length: 1_100_000_000,
            gear_nose_rest_length: 1_100_000_000,
            gear_grip: 6_000_000_000_000,
            gear_rolling_resistance: 10_000_000,
            gear_brake_strength: 650_000_000,
            gear_nose_z: 2_350_000_000,
            gear_main_z: 200_000_000,
            gear_track: 2_500_000_000,
            gear_nose_mount_height: -150_000_000,
            gear_main_mount_height: -150_000_000,
        }
    }
}

impl Default for LightsConfig {
    fn default() -> (c: Self)
        ensures
            is_vec(c.nav_left_pos, -650_000_000_000, 130_000_000_000, 100_000_000_000),
            is_vec(c.nav_right_pos, 650_000_000_000, 130_000_000_000, 100_000_000_000),
            is_vec(c.nav_tail_pos, 0, 40_000_000_000, -620_000_000_000),
            c.strobe_left_pos == c.nav_left_pos,
            c.strobe_right_pos == c.nav_right_pos,
            c.strobe_tail_pos == c.nav_tail_pos,
            c.strobe_period == 1_200_000_000,
            c.strobe_on_time == 70_000_000,
            is_vec(c.beacon_pos, 0, 240_000_000_000, -530_000_000_000),
            c.beacon_period == 1_000_000_000,
            is_vec(c.landing_pos, 0, 5_000_000_000, 320_000_000_000),
            c.landing_pitch_deg == -5_000_000_000,
            c.landing_outer_deg == 65_000_000_000,
            c.landing_inner_deg == 25_000_000_000,
            c.landing_intensity == 3_000_000_000_000_000,
            c.nav_intensity == 1_000_000_000_000,
            c.strobe_intensity == 9_000_000_000_000,
            c.beacon_intensity == 6_000_000_000_000,
    {
        LightsConfig {
            nav_left_pos: vec3(-650_000_000_000, 130_000_000_000, 100_000_000_000),
            nav_right_pos: vec3(650_000_000_000, 130_000_000_000, 100_000_000_000),
            nav_tail_pos: vec3(0, 40_000_000_000, -620_000_000_000),
            strobe_left_pos: vec3(-650_000_000_000, 130_000_000_000, 100_000_000_000),
            strobe_right_pos: vec3(650_000_000_000, 130_000_000_000, 100_000_000_000),
            strobe_tail_pos: vec3(0, 40_000_000_000, -620_000_000_000),
            strobe_period: 1_200_000_000,
            strobe_on_time: 70_000_000,
            beacon_pos: vec3(0, 240_000_000_000, -530_000_000_000),
            beacon_period: 1_000_000_000,
            landing_pos: vec3(0, 5_000_000_000, 320_000_000_000),
            landing_pitch_deg: -5_000_000_000,
            landing_outer_deg: 65_000_000_000,
            landing_inner_deg: 25_000_000_000,
            landing_intensity: 3_000_000_000_000_000,
            nav_intensity: 1_000_000_000_000,
            strobe_intensity: 9_000_000_000_000,
            beacon_intensity: 6_000_000_000_000,
        }
    }
}

impl Default for FlightModelConfig {
    fn default() -> (c: Self)
        ensures
            c.pitch_sensitivity == 500_000_000,
            c.roll_sensitivity == 220_000_000,
            c.yaw_sensitivity == 450_000_000,
            c.throttle_rate == 500_000_000,
            c.servo_tau == 450_000_000,
            c.elevator_trim == 0,
            is_vec(c.aero_damp, 25_000_000_000, 4_500_000_000, 4_000_000_000),
            is_vec(c.fuselage_drag, 3_000_000_000, 4_000_000_000, 200_000_000),
            c.air_density == 1_200_000_000,
            c.gravity == 9_810_000_000,
            c.prediction_fraction == 500_000_000,
            c.ground_effect_strength == 1_000_000_000,
            c.ground_effect_span == 11_000_000_000,
            c.auto_level_strength == 150_000_000_000,
            c.pitch_assist_strength == 150_000_000_000,
            c.pitch_rate_damp == 20_000_000_000,
            c.bank_turn_strength == 12_000_000_000,
            c.thrust_max == 3_200_000_000_000,
            c.engine_spool_up_tau == 1_200_000_000,
            c.engine_spool_down_tau == 1_500_000_000,
            c.engine_crank_rps == 5_000_000_000,
            c.engine_start_secs == 1_500_000_000,
            call_ensures(PropellerConfig::default, (), c.propeller),
            call_ensures(LandingGearConfig::default, (), c.landing_gear),
            call_ensures(LightsConfig::default, (), c.lights),
            c.mass == 767_000_000_000,
            is_vec(c.angular_inertia, 1_285_000_000_000, 1_825_000_000_000, 1_285_000_000_000),
            c.angular_damping == 0,
            call_ensures(CargoConfig::default, (), c.cargo),
            is_vec(c.model_offset, 0, -12_000_000_000, 11_000_000_000),
            is_vec(c.center_of_mass, 0, 1_000_000_000, 3_000_000_000),
            c.wing_incidence == 4_000_000_000,
            is_wing(c.wing, 200_000_000, 4_050_000_000, 1_620_000_000, 7_320_000_000),
            is_wing(c.aileron, 350_000_000, 950_000_000, 1_620_000_000, 7_320_000_000),
            call_ensures(
                AeroSurfaceConfig::stabilizer,
                (3_400_000_000i64, 1_000_000_000i64),
                c.elevator,
            ),
            call_ensures(
                AeroSurfaceConfig::stabilizer,
                (2_200_000_000i64, 800_000_000i64),
                c.rudder,
            ),
            is_wing(
                c.body_lift,
                0,
                500_000_000,
                1_570_000_000,
                aspect(500_000_000, 1_570_000_000),
            ),
    {
        FlightModelConfig {
            pitch_sensitivity: 500_000_000,
            roll_sensitivity: 220_000_000,
            yaw_sensitivity: 450_000_000,
            throttle_rate: 500_000_000,
            servo_tau: 450_000_000,
            elevator_trim: 0,
            aero_damp: vec3(25_000_000_000, 4_500_000_000, 4_000_000_000),
            fuselage_drag: vec3(3_000_000_000, 4_000_000_000, 200_000_000),
            air_density: 1_200_000_000,
            gravity: 9_810_000_000,
            prediction_fraction: 500_000_000,
            ground_effect_strength: 1_000_000_000,
            ground_effect_span: 11_000_000_000,
            auto_level_strength: 150_000_000_000,
            pitch_assist_strength: 150_000_000_000,
            pitch_rate_damp: 20_000_000_000,
            bank_turn_strength: 12_000_000_000,
            thrust_max: 3_200_000_000_000,
            engine_spool_up_tau: 1_200_000_000,
            engine_spool_down_tau: 1_500_000_000,
            engine_crank_rps: 5_000_000_000,
            engine_start_secs: 1_500_000_000,
            propeller: PropellerConfig::default(),
            landing_gear: LandingGearConfig::default(),
            lights: LightsConfig::default(),
            mass: 767_000_000_000,
            angular_inertia: vec3(1_285_000_000_000, 1_825_000_000_000, 1_285_000_000_000),
            angular_damping: 0,
            cargo: CargoConfig::default(),
            model_offset: vec3(0, -12_000_000_000, 11_000_000_000),
            center_of_mass: vec3(0, 1_000_000_000, 3_000_000_000),
            wing_incidence: 4_000_000_000,
            wing: wing_panel(200_000_000, 4_050_000_000, 1_620_000_000, 7_320_000_000),
            aileron: wing_panel(350_000_000, 950_000_000, 1_620_000_000, 7_320_000_000),
            elevator: AeroSurfaceConfig::stabilizer(3_400_000_000, 1_000_000_000),
            rudder: AeroSurfaceConfig::stabilizer(2_200_000_000, 800_000_000),
            body_lift: wing_panel(0, 500_000_000, 1_570_000_000, 318_471_337),
        }
    }
}

/// A cambered panel: the default surface with its own flap share, span, chord and
/// aspect ratio.
pub open spec fn is_wing(
    c: AeroSurfaceConfig,
    flap_fraction: int,
    span: int,
    chord: int,
    aspect_ratio: int,
) -> bool {
    &&& c.lift_slope == TAU
    &&& c.skin_friction == 20_000_000
    &&& c.zero_lift_aoa == -3_000_000_000
    &&& c.stall_angle_high == 17_000_000_000
    &&& c.stall_angle_low == -17_000_000_000
    &&& c.chord == chord
    &&& c.flap_fraction == flap_fraction
    &&& c.span == span
    &&& c.aspect_ratio == aspect_ratio
}

fn wing_panel(flap_fraction: i64, span: i64, chord: i64, aspect_ratio: i64) -> (c: AeroSurfaceConfig)
    ensures
        is_wing(c, flap_fraction as int, span as int, chord as int, aspect_ratio as int),
{
    let base: AeroSurfaceConfig = AeroSurfaceConfig::default();
    AeroSurfaceConfig { flap_fraction, span, chord, aspect_ratio, ..base }
}

/// Standard adult occupant mass: 86 kg.
pub const OCCUPANT_MASS: i64 = 86_000_000_000;

/// Full usable fuel per wing tank: 75 kg.
pub const FUEL_TANK_MAX_KG: i64 = 75_000_000_000;

/// Maximum baggage: 54 kg.
pub const CARGO_MAX_KG: i64 = 54_000_000_000;

}
