//! The tuning panel: which constants of the flight model have a slider, over what
//! range, and what moving one does.

use crate::fixed::{clamp, clamped};
use crate::physics::aero_surface_config::AeroSurfaceConfig;
use crate::physics::flight_config::{
    CargoConfig, FlightModelConfig, LandingGearConfig, PropellerConfig,
};
use crate::text::{push_rounded, rounded_text};
use crate::vector::Vec3;
use vstd::prelude::*;
use vstd::string::StringExecFns;

verus! {

/// A component of a vector.
#[derive(Clone, Copy, Debug, PartialEq, Eq, Structural)]
pub enum Axis {
    X,
    Y,
    Z,
}

/// One of the configured surfaces.
#[derive(Clone, Copy, Debug, PartialEq, Eq, Structural)]
pub enum SurfaceId {
    Wing,
    Aileron,
    Elevator,
    Rudder,
    BodyLift,
}

/// A slider of a surface.
#[derive(Clone, Copy, Debug, PartialEq, Eq, Structural)]
pub enum SurfaceKnob {
    LiftSlope,
    SkinFriction,
    ZeroLiftAoa,
    StallAngleHigh,
    StallAngleLow,
    Chord,
    Span,
    AspectRatio,
    FlapFraction,
}

/// A slider of the panel.
#[derive(Clone, Copy, Debug, PartialEq, Eq, Structural)]
pub enum Knob {
    PitchSensitivity,
    RollSensitivity,
    YawSensitivity,
    ThrottleRate,
    ServoTau,
    ElevatorTrim,
    AeroDamp(Axis),
    FuselageDrag(Axis),
    AirDensity,
    Gravity,
    PredictionFraction,
    GroundEffectStrength,
    GroundEffectSpan,
    AutoLevel,
    PitchAssist,
    BankTurn,
    ThrustMax,
    SpoolUpTau,
    SpoolDownTau,
    CrankSpeed,
    StartTime,
    PropPosition(Axis),
    PropRadius,
    PropIdle,
    PropMax,
    GearSpring,
    GearDamping,
    GearRestLength,
    GearNoseRestLength,
    GearGrip,
    GearRollingResistance,
    GearBrakeStrength,
    GearNoseZ,
    GearMainZ,
    GearTrack,
    GearNoseMountHeight,
    GearMainMountHeight,
    FuelLeft,
    FuelRight,
    Cargo,
    Occupants,
    Mass,
    Inertia(Axis),
    AngularDamping,
    ModelOffset(Axis),
    CenterOfMass(Axis),
    WingIncidence,
    Surface(SurfaceId, SurfaceKnob),
}

pub open spec fn component(v: Vec3, axis: Axis) -> i64 {
    match axis {
        Axis::X => v.x,
        Axis::Y => v.y,
        Axis::Z => v.z,
    }
}

pub open spec fn with_component(v: Vec3, axis: Axis, value: i64) -> Vec3 {
    match axis {
        Axis::X => Vec3 { x: value, ..v },
        Axis::Y => Vec3 { y: value, ..v },
        Axis::Z => Vec3 { z: value, ..v },
    }
}

fn get_component(v: &Vec3, axis: Axis) -> (value: i64)
    ensures
        value == component(*v, axis),
{
    match axis {
        Axis::X => v.x,
        Axis::Y => v.y,
        Axis::Z => v.z,
    }
}

fn set_component(v: &mut Vec3, axis: Axis, value: i64)
    ensures
        *final(v) == with_component(*old(v), axis, value),
{
    match axis {
        Axis::X => {
            v.x = value;
        },
        Axis::Y => {
            v.y = value;
        },
        Axis::Z => {
            v.z = value;
        },
    }
}

/// The range of a surface's slider, nine decimals.
pub open spec fn surface_range(knob: SurfaceKnob) -> (int, int) {
    match knob {
        SurfaceKnob::LiftSlope => (100_000_000, 10_000_000_000),
        SurfaceKnob::SkinFriction => (100_000_000, 200_000_000),
        SurfaceKnob::ZeroLiftAoa => (-10_000_000_000, 10_000_000_000),
        SurfaceKnob::StallAngleHigh => (100_000_000, 30_000_000_000),
        SurfaceKnob::StallAngleLow => (-30_000_000_000, 100_000_000),
        SurfaceKnob::Chord => (100_000_000, 5_000_000_000),
        SurfaceKnob::Span => (100_000_000, 10_000_000_000),
        SurfaceKnob::AspectRatio => (100_000_000, 15_000_000_000),
        SurfaceKnob::FlapFraction => (100_000_000, 1_000_000_000),
    }
}

/// The range of a surface's slider.
pub fn surface_limits(knob: SurfaceKnob) -> (r: (i64, i64))
    ensures
        r.0 == surface_range(knob).0,
        r.1 == surface_range(knob).1,
        r.0 < r.1,
{
    match knob {
        SurfaceKnob::LiftSlope => (100_000_000, 10_000_000_000),
        SurfaceKnob::SkinFriction => (100_000_000, 200_000_000),
        SurfaceKnob::ZeroLiftAoa => (-10_000_000_000, 10_000_000_000),
        SurfaceKnob::StallAngleHigh => (100_000_000, 30_000_000_000),
        SurfaceKnob::StallAngleLow => (-30_000_000_000, 100_000_000),
        SurfaceKnob::Chord => (100_000_000, 5_000_000_000),
        SurfaceKnob::Span => (100_000_000, 10_000_000_000),
        SurfaceKnob::AspectRatio => (100_000_000, 15_000_000_000),
        SurfaceKnob::FlapFraction => (100_000_000, 1_000_000_000),
    }
}

/// What a surface's slider shows.
pub open spec fn surface_value(c: AeroSurfaceConfig, knob: SurfaceKnob) -> i64 {
    match knob {
        SurfaceKnob::LiftSlope => c.lift_slope,
        SurfaceKnob::SkinFriction => c.skin_friction,
        SurfaceKnob::ZeroLiftAoa => c.zero_lift_aoa,
        SurfaceKnob::StallAngleHigh => c.stall_angle_high,
        SurfaceKnob::StallAngleLow => c.stall_angle_low,
        SurfaceKnob::Chord => c.chord,
        SurfaceKnob::Span => c.span,
        SurfaceKnob::AspectRatio => c.aspect_ratio,
        SurfaceKnob::FlapFraction => c.flap_fraction,
    }
}

/// A surface with one of its sliders at a value.
pub open spec fn with_surface_value(
    c: AeroSurfaceConfig,
    knob: SurfaceKnob,
    v: i64,
) -> AeroSurfaceConfig {
    match knob {
        SurfaceKnob::LiftSlope => AeroSurfaceConfig { lift_slope: v, ..c },
        SurfaceKnob::SkinFriction => AeroSurfaceConfig { skin_friction: v, ..c },
        SurfaceKnob::ZeroLiftAoa => AeroSurfaceConfig { zero_lift_aoa: v, ..c },
        SurfaceKnob::StallAngleHigh => AeroSurfaceConfig { stall_angle_high: v, ..c },
        SurfaceKnob::StallAngleLow => AeroSurfaceConfig { stall_angle_low: v, ..c },
        SurfaceKnob::Chord => AeroSurfaceConfig { chord: v, ..c },
        SurfaceKnob::Span => AeroSurfaceConfig { span: v, ..c },
        SurfaceKnob::AspectRatio => AeroSurfaceConfig { aspect_ratio: v, ..c },
        SurfaceKnob::FlapFraction => AeroSurfaceConfig { flap_fraction: v, ..c },
    }
}

fn get_surface_value(c: &AeroSurfaceConfig, knob: SurfaceKnob) -> (v: i64)
    ensures
        v == surface_value(*c, knob),
{
    match knob {
        SurfaceKnob::LiftSlope => c.lift_slope,
        SurfaceKnob::SkinFriction => c.skin_friction,
        SurfaceKnob::ZeroLiftAoa => c.zero_lift_aoa,
        SurfaceKnob::StallAngleHigh => c.stall_angle_high,
        SurfaceKnob::StallAngleLow => c.stall_angle_low,
        SurfaceKnob::Chord => c.chord,
        SurfaceKnob::Span => c.span,
        SurfaceKnob::AspectRatio => c.aspect_ratio,
        SurfaceKnob::FlapFraction => c.flap_fraction,
    }
}

fn set_surface_value(c: &mut AeroSurfaceConfig, knob: SurfaceKnob, v: i64)
    ensures
        *final(c) == with_surface_value(*old(c), knob, v),
{
    match knob {
        SurfaceKnob::LiftSlope => {
            c.lift_slope = v;
        },
        SurfaceKnob::SkinFriction => {
            c.skin_friction = v;
        },
        SurfaceKnob::ZeroLiftAoa => {
            c.zero_lift_aoa = v;
        },
        SurfaceKnob::StallAngleHigh => {
            c.stall_angle_high = v;
        },
        SurfaceKnob::StallAngleLow => {
            c.stall_angle_low = v;
        },
        SurfaceKnob::Chord => {
            c.chord = v;
        },
        SurfaceKnob::Span => {
            c.span = v;
        },
        SurfaceKnob::AspectRatio => {
            c.aspect_ratio = v;
        },
        SurfaceKnob::FlapFraction => {
            c.flap_fraction = v;
        },
    }
}

/// A surface's configuration.
pub open spec fn surface_of(config: FlightModelConfig, id: SurfaceId) -> AeroSurfaceConfig {
    match id {
        SurfaceId::Wing => config.wing,
        SurfaceId::Aileron => config.aileron,
        SurfaceId::Elevator => config.elevator,
        SurfaceId::Rudder => config.rudder,
        SurfaceId::BodyLift => config.body_lift,
    }
}

/// The model with one surface's configuration replaced.
pub open spec fn with_surface(
    config: FlightModelConfig,
    id: SurfaceId,
    c: AeroSurfaceConfig,
) -> FlightModelConfig {
    match id {
        SurfaceId::Wing => FlightModelConfig { wing: c, ..config },
        SurfaceId::Aileron => FlightModelConfig { aileron: c, ..config },
        SurfaceId::Elevator => FlightModelConfig { elevator: c, ..config },
        SurfaceId::Rudder => FlightModelConfig { rudder: c, ..config },
        SurfaceId::BodyLift => FlightModelConfig { body_lift: c, ..config },
    }
}

/// The range of a slider, nine decimals; occupants are counted whole. The lower
/// ends keep the model computable: the servo and the engine always take some time
/// to respond, and the airframe always weighs something.
pub open spec fn knob_range(knob: Knob) -> (int, int) {
    match knob {
        Knob::PitchSensitivity => (0, 2_000_000_000),
        Knob::RollSensitivity => (0, 2_000_000_000),
        Knob::YawSensitivity => (0, 2_000_000_000),
        Knob::ThrottleRate => (50_000_000, 5_000_000_000),
        Knob::ServoTau => (10_000_000, 1_000_000_000),
        Knob::ElevatorTrim => (-500_000_000, 500_000_000),
        Knob::AeroDamp(_) => (0, 200_000_000_000),
        Knob::FuselageDrag(Axis::Z) => (0, 2_000_000_000),
        Knob::FuselageDrag(_) => (0, 100_000_000_000),
        Knob::AirDensity => (100_000_000, 2_000_000_000),
        Knob::Gravity => (0, 20_000_000_000),
        Knob::PredictionFraction => (0, 1_000_000_000),
        Knob::GroundEffectStrength => (0, 10_000_000_000),
        Knob::GroundEffectSpan => (1_000_000_000, 20_000_000_000),
        Knob::AutoLevel => (0, 500_000_000_000),
        Knob::PitchAssist => (0, 500_000_000_000),
        Knob::BankTurn => (0, 500_000_000_000),
        Knob::ThrustMax => (0, 20_000_000_000_000),
        Knob::SpoolUpTau => (50_000_000, 10_000_000_000),
        Knob::SpoolDownTau => (50_000_000, 15_000_000_000),
        Knob::CrankSpeed => (0, 20_000_000_000),
        Knob::StartTime => (100_000_000, 10_000_000_000),
        Knob::PropPosition(Axis::Z) => (-30_000_000_000, 90_000_000_000),
        Knob::PropPosition(_) => (-30_000_000_000, 30_000_000_000),
        Knob::PropRadius => (100_000_000, 3_000_000_000),
        Knob::PropIdle => (0, 30_000_000_000),
        Knob::PropMax => (0, 80_000_000_000),
        Knob::GearSpring => (0, 200_000_000_000_000),
        Knob::GearDamping => (0, 40_000_000_000_000),
        Knob::GearRestLength => (100_000_000, 2_000_000_000),
        Knob::GearNoseRestLength => (100_000_000, 2_000_000_000),
        Knob::GearGrip => (0, 20_000_000_000_000),
        Knob::GearRollingResistance => (0, 300_000_000),
        Knob::GearBrakeStrength => (0, 2_000_000_000),
        Knob::GearNoseZ => (-3_000_000_000, 4_000_000_000),
        Knob::GearMainZ => (-3_000_000_000, 4_000_000_000),
        Knob::GearTrack => (0, 6_000_000_000),
        Knob::GearNoseMountHeight => (-2_000_000_000, 1_000_000_000),
        Knob::GearMainMountHeight => (-2_000_000_000, 1_000_000_000),
        Knob::FuelLeft => (0, 75_000_000_000),
        Knob::FuelRight => (0, 75_000_000_000),
        Knob::Cargo => (0, 54_000_000_000),
        Knob::Occupants => (1, 4),
        Knob::Mass => (50_000_000_000, 5_000_000_000_000),
        Knob::Inertia(_) => (50_000_000_000, 10_000_000_000_000),
        Knob::AngularDamping => (0, 5_000_000_000),
        Knob::ModelOffset(_) => (-50_000_000_000, 50_000_000_000),
        Knob::CenterOfMass(Axis::Z) => (-30_000_000_000, 30_000_000_000),
        Knob::CenterOfMass(_) => (-20_000_000_000, 20_000_000_000),
        Knob::WingIncidence => (-5_000_000_000, 10_000_000_000),
        Knob::Surface(_, s) => surface_range(s),
    }
}

/// The range of a slider.
pub fn knob_limits(knob: Knob) -> (r: (i64, i64))
    ensures
        r.0 == knob_range(knob).0,
        r.1 == knob_range(knob).1,
        r.0 < r.1,
{
    match knob {
        Knob::PitchSensitivity => (0, 2_000_000_000),
        Knob::RollSensitivity => (0, 2_000_000_000),
        Knob::YawSensitivity => (0, 2_000_000_000),
        Knob::ThrottleRate => (50_000_000, 5_000_000_000),
        Knob::ServoTau => (10_000_000, 1_000_000_000),
        Knob::ElevatorTrim => (-500_000_000, 500_000_000),
        Knob::AeroDamp(_) => (0, 200_000_000_000),
        Knob::FuselageDrag(Axis::Z) => (0, 2_000_000_000),
        Knob::FuselageDrag(_) => (0, 100_000_000_000),
        Knob::AirDensity => (100_000_000, 2_000_000_000),
        Knob::Gravity => (0, 20_000_000_000),
        Knob::PredictionFraction => (0, 1_000_000_000),
        Knob::GroundEffectStrength => (0, 10_000_000_000),
        Knob::GroundEffectSpan => (1_000_000_000, 20_000_000_000),
        Knob::AutoLevel => (0, 500_000_000_000),
        Knob::PitchAssist => (0, 500_000_000_000),
        Knob::BankTurn => (0, 500_000_000_000),
        Knob::ThrustMax => (0, 20_000_000_000_000),
        Knob::SpoolUpTau => (50_000_000, 10_000_000_000),
        Knob::SpoolDownTau => (50_000_000, 15_000_000_000),
        Knob::CrankSpeed => (0, 20_000_000_000),
        Knob::StartTime => (100_000_000, 10_000_000_000),
        Knob::PropPosition(Axis::Z) => (-30_000_000_000, 90_000_000_000),
        Knob::PropPosition(_) => (-30_000_000_000, 30_000_000_000),
        Knob::PropRadius => (100_000_000, 3_000_000_000),
        Knob::PropIdle => (0, 30_000_000_000),
        Knob::PropMax => (0, 80_000_000_000),
        Knob::GearSpring => (0, 200_000_000_000_000),
        Knob::GearDamping => (0, 40_000_000_000_000),
        Knob::GearRestLength => (100_000_000, 2_000_000_000),
        Knob::GearNoseRestLength => (100_000_000, 2_000_000_000),
        Knob::GearGrip => (0, 20_000_000_000_000),
        Knob::GearRollingResistance => (0, 300_000_000),
        Knob::GearBrakeStrength => (0, 2_000_000_000),
        Knob::GearNoseZ => (-3_000_000_000, 4_000_000_000),
        Knob::GearMainZ => (-3_000_000_000, 4_000_000_000),
        Knob::GearTrack => (0, 6_000_000_000),
        Knob::GearNoseMountHeight => (-2_000_000_000, 1_000_000_000),
        Knob::GearMainMountHeight => (-2_000_000_000, 1_000_000_000),
        Knob::FuelLeft => (0, 75_000_000_000),
        Knob::FuelRight => (0, 75_000_000_000),
        Knob::Cargo => (0, 54_000_000_000),
        Knob::Occupants => (1, 4),
        Knob::Mass => (50_000_000_000, 5_000_000_000_000),
        Knob::Inertia(_) => (50_000_000_000, 10_000_000_000_000),
        Knob::AngularDamping => (0, 5_000_000_000),
        Knob::ModelOffset(_) => (-50_000_000_000, 50_000_000_000),
        Knob::CenterOfMass(Axis::Z) => (-30_000_000_000, 30_000_000_000),
        Knob::CenterOfMass(_) => (-20_000_000_000, 20_000_000_000),
        Knob::WingIncidence => (-5_000_000_000, 10_000_000_000),
        Knob::Surface(_, s) => surface_limits(s),
    }
}

/// What a slider shows.
pub open spec fn knob_value(config: FlightModelConfig, knob: Knob) -> i64 {
    match knob {
        Knob::PitchSensitivity => config.pitch_sensitivity,
        Knob::RollSensitivity => config.roll_sensitivity,
        Knob::YawSensitivity => config.yaw_sensitivity,
        Knob::ThrottleRate => config.throttle_rate,
        Knob::ServoTau => config.servo_tau,
        Knob::ElevatorTrim => config.elevator_trim,
        Knob::AeroDamp(axis) => component(config.aero_damp, axis),
        Knob::FuselageDrag(axis) => component(config.fuselage_drag, axis),
        Knob::AirDensity => config.air_density,
        Knob::Gravity => config.gravity,
        Knob::PredictionFraction => config.prediction_fraction,
        Knob::GroundEffectStrength => config.ground_effect_strength,
        Knob::GroundEffectSpan => config.ground_effect_span,
        Knob::AutoLevel => config.auto_level_strength,
        Knob::PitchAssist => config.pitch_assist_strength,
        Knob::BankTurn => config.bank_turn_strength,
        Knob::ThrustMax => config.thrust_max,
        Knob::SpoolUpTau => config.engine_spool_up_tau,
        Knob::SpoolDownTau => config.engine_spool_down_tau,
        Knob::CrankSpeed => config.engine_crank_rps,
        Knob::StartTime => config.engine_start_secs,
        Knob::PropPosition(axis) => component(config.propeller.prop_position, axis),
        Knob::PropRadius => config.propeller.prop_radius,
        Knob::PropIdle => config.propeller.prop_idle_rps,
        Knob::PropMax => config.propeller.prop_max_rps,
        Knob::GearSpring => config.landing_gear.gear_spring,
        Knob::GearDamping => config.landing_gear.gear_damping,
        Knob::GearRestLength => config.landing_gear.gear_rest_length,
        Knob::GearNoseRestLength => config.landing_gear.gear_nose_rest_length,
        Knob::GearGrip => config.landing_gear.gear_grip,
        Knob::GearRollingResistance => config.landing_gear.gear_rolling_resistance,
        Knob::GearBrakeStrength => config.landing_gear.gear_brake_strength,
        Knob::GearNoseZ => config.landing_gear.gear_nose_z,
        Knob::GearMainZ => config.landing_gear.gear_main_z,
        Knob::GearTrack => config.landing_gear.gear_track,
        Knob::GearNoseMountHeight => config.landing_gear.gear_nose_mount_height,
        Knob::GearMainMountHeight => config.landing_gear.gear_main_mount_height,
        Knob::FuelLeft => config.cargo.fuel_left_kg,
        Knob::FuelRight => config.cargo.fuel_right_kg,
        Knob::Cargo => config.cargo.cargo_kg,
        Knob::Occupants => config.cargo.passengers as i64,
        Knob::Mass => config.mass,
        Knob::Inertia(axis) => component(config.angular_inertia, axis),
        Knob::AngularDamping => config.angular_damping,
        Knob::ModelOffset(axis) => component(config.model_offset, axis),
        Knob::CenterOfMass(axis) => component(config.center_of_mass, axis),
        Knob::WingIncidence => config.wing_incidence,
        Knob::Surface(id, s) => surface_value(surface_of(config, id), s),
    }
}

/// The model with one slider at a value.
pub open spec fn with_knob(config: FlightModelConfig, knob: Knob, v: i64) -> FlightModelConfig {
    match knob {
        Knob::PitchSensitivity => FlightModelConfig { pitch_sensitivity: v, ..config },
        Knob::RollSensitivity => FlightModelConfig { roll_sensitivity: v, ..config },
        Knob::YawSensitivity => FlightModelConfig { yaw_sensitivity: v, ..config },
        Knob::ThrottleRate => FlightModelConfig { throttle_rate: v, ..config },
        Knob::ServoTau => FlightModelConfig { servo_tau: v, ..config },
        Knob::ElevatorTrim => FlightModelConfig { elevator_trim: v, ..config },
        Knob::AeroDamp(axis) => FlightModelConfig {
            aero_damp: with_component(config.aero_damp, axis, v),
            ..config
        },
        Knob::FuselageDrag(axis) => FlightModelConfig {
            fuselage_drag: with_component(config.fuselage_drag, axis, v),
            ..config
        },
        Knob::AirDensity => FlightModelConfig { air_density: v, ..config },
        Knob::Gravity => FlightModelConfig { gravity: v, ..config },
        Knob::PredictionFraction => FlightModelConfig { prediction_fraction: v, ..config },
        Knob::GroundEffectStrength => FlightModelConfig { ground_effect_strength: v, ..config },
        Knob::GroundEffectSpan => FlightModelConfig { ground_effect_span: v, ..config },
        Knob::AutoLevel => FlightModelConfig { auto_level_strength: v, ..config },
        Knob::PitchAssist => FlightModelConfig { pitch_assist_strength: v, ..config },
        Knob::BankTurn => FlightModelConfig { bank_turn_strength: v, ..config },
        Knob::ThrustMax => FlightModelConfig { thrust_max: v, ..config },
        Knob::SpoolUpTau => FlightModelConfig { engine_spool_up_tau: v, ..config },
        Knob::SpoolDownTau => FlightModelConfig { engine_spool_down_tau: v, ..config },
        Knob::CrankSpeed => FlightModelConfig { engine_crank_rps: v, ..config },
        Knob::StartTime => FlightModelConfig { engine_start_secs: v, ..config },
        Knob::PropPosition(axis) => FlightModelConfig {
            propeller: PropellerConfig {
                prop_position: with_component(config.propeller.prop_position, axis, v),
                ..config.propeller
            },
            ..config
        },
        Knob::PropRadius => FlightModelConfig {
            propeller: PropellerConfig { prop_radius: v, ..config.propeller },
            ..config
        },
        Knob::PropIdle => FlightModelConfig {
            propeller: PropellerConfig { prop_idle_rps: v, ..config.propeller },
            ..config
        },
        Knob::PropMax => FlightModelConfig {
            propeller: PropellerConfig { prop_max_rps: v, ..config.propeller },
            ..config
        },
        Knob::GearSpring => FlightModelConfig {
            landing_gear: LandingGearConfig { gear_spring: v, ..config.landing_gear },
            ..config
        },
        Knob::GearDamping => FlightModelConfig {
            landing_gear: LandingGearConfig { gear_damping: v, ..config.landing_gear },
            ..config
        },
        Knob::GearRestLength => FlightModelConfig {
            landing_gear: LandingGearConfig { gear_rest_length: v, ..config.landing_gear },
            ..config
        },
        Knob::GearNoseRestLength => FlightModelConfig {
            landing_gear: LandingGearConfig { gear_nose_rest_length: v, ..config.landing_gear },
            ..config
        },
        Knob::GearGrip => FlightModelConfig {
            landing_gear: LandingGearConfig { gear_grip: v, ..config.landing_gear },
            ..config
        },
        Knob::GearRollingResistance => FlightModelConfig {
            landing_gear: LandingGearConfig { gear_rolling_resistance: v, ..config.landing_gear },
            ..config
        },
        Knob::GearBrakeStrength => FlightModelConfig {
            landing_gear: LandingGearConfig { gear_brake_strength: v, ..config.landing_gear },
            ..config
        },
        Knob::GearNoseZ => FlightModelConfig {
            landing_gear: LandingGearConfig { gear_nose_z: v, ..config.landing_gear },
            ..config
        },
        Knob::GearMainZ => FlightModelConfig {
            landing_gear: LandingGearConfig { gear_main_z: v, ..config.landing_gear },
            ..config
        },
        Knob::GearTrack => FlightModelConfig {
            landing_gear: LandingGearConfig { gear_track: v, ..config.landing_gear },
            ..config
        },
        Knob::GearNoseMountHeight => FlightModelConfig {
            landing_gear: LandingGearConfig { gear_nose_mount_height: v, ..config.landing_gear },
            ..config
        },
        Knob::GearMainMountHeight => FlightModelConfig {
            landing_gear: LandingGearConfig { gear_main_mount_height: v, ..config.landing_gear },
            ..config
        },
        Knob::FuelLeft => FlightModelConfig {
            cargo: CargoConfig { fuel_left_kg: v, ..config.cargo },
            ..config
        },
        Knob::FuelRight => FlightModelConfig {
            cargo: CargoConfig { fuel_right_kg: v, ..config.cargo },
            ..config
        },
        Knob::Cargo => FlightModelConfig {
            cargo: CargoConfig { cargo_kg: v, ..config.cargo },
            ..config
        },
        Knob::Occupants => FlightModelConfig {
            cargo: CargoConfig { passengers: v as u32, ..config.cargo },
            ..config
        },
        Knob::Mass => FlightModelConfig { mass: v, ..config },
        Knob::Inertia(axis) => FlightModelConfig {
            angular_inertia: with_component(config.angular_inertia, axis, v),
            ..config
        },
        Knob::AngularDamping => FlightModelConfig { angular_damping: v, ..config },
        Knob::ModelOffset(axis) => FlightModelConfig {
            model_offset: with_component(config.model_offset, axis, v),
            ..config
        },
        Knob::CenterOfMass(axis) => FlightModelConfig {
            center_of_mass: with_component(config.center_of_mass, axis, v),
            ..config
        },
        Knob::WingIncidence => FlightModelConfig { wing_incidence: v, ..config },
        Knob::Surface(id, s) => with_surface(
            config,
            id,
            with_surface_value(surface_of(config, id), s, v),
        ),
    }
}

/// What a slider shows.
pub fn get_knob(config: &FlightModelConfig, knob: Knob) -> (v: i64)
    ensures
        v == knob_value(*config, knob),
{
    match knob {
        Knob::PitchSensitivity => config.pitch_sensitivity,
        Knob::RollSensitivity => config.roll_sensitivity,
        Knob::YawSensitivity => config.yaw_sensitivity,
        Knob::ThrottleRate => config.throttle_rate,
        Knob::ServoTau => config.servo_tau,
        Knob::ElevatorTrim => config.elevator_trim,
        Knob::AeroDamp(axis) => get_component(&config.aero_damp, axis),
        Knob::FuselageDrag(axis) => get_component(&config.fuselage_drag, axis),
        Knob::AirDensity => config.air_density,
        Knob::Gravity => config.gravity,
        Knob::PredictionFraction => config.prediction_fraction,
        Knob::GroundEffectStrength => config.ground_effect_strength,
        Knob::GroundEffectSpan => config.ground_effect_span,
        Knob::AutoLevel => config.auto_level_strength,
        Knob::PitchAssist => config.pitch_assist_strength,
        Knob::BankTurn => config.bank_turn_strength,
        Knob::ThrustMax => config.thrust_max,
        Knob::SpoolUpTau => config.engine_spool_up_tau,
        Knob::SpoolDownTau => config.engine_spool_down_tau,
        Knob::CrankSpeed => config.engine_crank_rps,
        Knob::StartTime => config.engine_start_secs,
        Knob::PropPosition(axis) => get_component(&config.propeller.prop_position, axis),
        Knob::PropRadius => config.propeller.prop_radius,
        Knob::PropIdle => config.propeller.prop_idle_rps,
        Knob::PropMax => config.propeller.prop_max_rps,
        Knob::GearSpring => config.landing_gear.gear_spring,
        Knob::GearDamping => config.landing_gear.gear_damping,
        Knob::GearRestLength => config.landing_gear.gear_rest_length,
        Knob::GearNoseRestLength => config.landing_gear.gear_nose_rest_length,
        Knob::GearGrip => config.landing_gear.gear_grip,
        Knob::GearRollingResistance => config.landing_gear.gear_rolling_resistance,
        Knob::GearBrakeStrength => config.landing_gear.gear_brake_strength,
        Knob::GearNoseZ => config.landing_gear.gear_nose_z,
        Knob::GearMainZ => config.landing_gear.gear_main_z,
        Knob::GearTrack => config.landing_gear.gear_track,
        Knob::GearNoseMountHeight => config.landing_gear.gear_nose_mount_height,
        Knob::GearMainMountHeight => config.landing_gear.gear_main_mount_height,
        Knob::FuelLeft => config.cargo.fuel_left_kg,
        Knob::FuelRight => config.cargo.fuel_right_kg,
        Knob::Cargo => config.cargo.cargo_kg,
        Knob::Occupants => config.cargo.passengers as i64,
        Knob::Mass => config.mass,
        Knob::Inertia(axis) => get_component(&config.angular_inertia, axis),
        Knob::AngularDamping => config.angular_damping,
        Knob::ModelOffset(axis) => get_component(&config.model_offset, axis),
        Knob::CenterOfMass(axis) => get_component(&config.center_of_mass, axis),
        Knob::WingIncidence => config.wing_incidence,
        Knob::Surface(SurfaceId::Wing, s) => get_surface_value(&config.wing, s),
        Knob::Surface(SurfaceId::Aileron, s) => get_surface_value(&config.aileron, s),
        Knob::Surface(SurfaceId::Elevator, s) => get_surface_value(&config.elevator, s),
        Knob::Surface(SurfaceId::Rudder, s) => get_surface_value(&config.rudder, s),
        Knob::Surface(SurfaceId::BodyLift, s) => get_surface_value(&config.body_lift, s),
    }
}

fn set_knob(config: &mut FlightModelConfig, knob: Knob, v: i64)
    ensures
        *final(config) == with_knob(*old(config), knob, v),
{
    match knob {
        Knob::PitchSensitivity => {
            config.pitch_sensitivity = v;
        },
        Knob::RollSensitivity => {
            config.roll_sensitivity = v;
        },
        Knob::YawSensitivity => {
            config.yaw_sensitivity = v;
        },
        Knob::ThrottleRate => {
            config.throttle_rate = v;
        },
        Knob::ServoTau => {
            config.servo_tau = v;
        },
        Knob::ElevatorTrim => {
            config.elevator_trim = v;
        },
        Knob::AeroDamp(axis) => set_component(&mut config.aero_damp, axis, v),
        Knob::FuselageDrag(axis) => set_component(&mut config.fuselage_drag, axis, v),
        Knob::AirDensity => {
            config.air_density = v;
        },
        Knob::Gravity => {
            config.gravity = v;
        },
        Knob::PredictionFraction => {
            config.prediction_fraction = v;
        },
        Knob::GroundEffectStrength => {
            config.ground_effect_strength = v;
        },
        Knob::GroundEffectSpan => {
            config.ground_effect_span = v;
        },
        Knob::AutoLevel => {
            config.auto_level_strength = v;
        },
        Knob::PitchAssist => {
            config.pitch_assist_strength = v;
        },
        Knob::BankTurn => {
            config.bank_turn_strength = v;
        },
        Knob::ThrustMax => {
            config.thrust_max = v;
        },
        Knob::SpoolUpTau => {
            config.engine_spool_up_tau = v;
        },
        Knob::SpoolDownTau => {
            config.engine_spool_down_tau = v;
        },
        Knob::CrankSpeed => {
            config.engine_crank_rps = v;
        },
        Knob::StartTime => {
            config.engine_start_secs = v;
        },
        Knob::PropPosition(axis) => set_component(&mut config.propeller.prop_position, axis, v),
        Knob::PropRadius => {
            config.propeller.prop_radius = v;
        },
        Knob::PropIdle => {
            config.propeller.prop_idle_rps = v;
        },
        Knob::PropMax => {
            config.propeller.prop_max_rps = v;
        },
        Knob::GearSpring => {
            config.landing_gear.gear_spring = v;
        },
        Knob::GearDamping => {
            config.landing_gear.gear_damping = v;
        },
        Knob::GearRestLength => {
            config.landing_gear.gear_rest_length = v;
        },
        Knob::GearNoseRestLength => {
            config.landing_gear.gear_nose_rest_length = v;
        },
        Knob::GearGrip => {
            config.landing_gear.gear_grip = v;
        },
        Knob::GearRollingResistance => {
            config.landing_gear.gear_rolling_resistance = v;
        },
        Knob::GearBrakeStrength => {
            config.landing_gear.gear_brake_strength = v;
        },
        Knob::GearNoseZ => {
            config.landing_gear.gear_nose_z = v;
        },
        Knob::GearMainZ => {
            config.landing_gear.gear_main_z = v;
        },
        Knob::GearTrack => {
            config.landing_gear.gear_track = v;
        },
        Knob::GearNoseMountHeight => {
            config.landing_gear.gear_nose_mount_height = v;
        },
        Knob::GearMainMountHeight => {
            config.landing_gear.gear_main_mount_height = v;
        },
        Knob::FuelLeft => {
            config.cargo.fuel_left_kg = v;
        },
        Knob::FuelRight => {
            config.cargo.fuel_right_kg = v;
        },
        Knob::Cargo => {
            config.cargo.cargo_kg = v;
        },
        Knob::Occupants => {
            config.cargo.passengers = v as u32;
        },
        Knob::Mass => {
            config.mass = v;
        },
        Knob::Inertia(axis) => set_component(&mut config.angular_inertia, axis, v),
        Knob::AngularDamping => {
            config.angular_damping = v;
        },
        Knob::ModelOffset(axis) => set_component(&mut config.model_offset, axis, v),
        Knob::CenterOfMass(axis) => set_component(&mut config.center_of_mass, axis, v),
        Knob::WingIncidence => {
            config.wing_incidence = v;
        },
        Knob::Surface(SurfaceId::Wing, s) => set_surface_value(&mut config.wing, s, v),
        Knob::Surface(SurfaceId::Aileron, s) => set_surface_value(&mut config.aileron, s, v),
        Knob::Surface(SurfaceId::Elevator, s) => set_surface_value(&mut config.elevator, s, v),
        Knob::Surface(SurfaceId::Rudder, s) => set_surface_value(&mut config.rudder, s, v),
        Knob::Surface(SurfaceId::BodyLift, s) => set_surface_value(&mut config.body_lift, s, v),
    }
}

/// The value of a slider after a frame: what it was dragged to, or else what it
/// showed, in either case taken into its range.
pub open spec fn slid(config: FlightModelConfig, knob: Knob, dragged: Option<i64>) -> i64 {
    let v = match dragged {
        Some(d) => d,
        None => knob_value(config, knob),
    };
    clamped(v as int, knob_range(knob).0, knob_range(knob).1) as i64
}

/// A slider for a frame.
pub fn slider(config: &mut FlightModelConfig, knob: Knob, dragged: Option<i64>)
    ensures
        *final(config) == with_knob(*old(config), knob, slid(*old(config), knob, dragged)),
{
    let v: i64 = match dragged {
        Some(d) => d,
        None => get_knob(config, knob),
    };
    let limits: (i64, i64) = knob_limits(knob);
    set_knob(config, knob, clamp(v as i128, limits.0, limits.1));
}

/// A slider leaves its own value in range.
pub proof fn slider_ends_in_range(config: FlightModelConfig, knob: Knob, dragged: Option<i64>)
    ensures
        ({
            let after = with_knob(config, knob, slid(config, knob, dragged));
            &&& knob_value(after, knob) == slid(config, knob, dragged)
            &&& knob_range(knob).0 <= knob_value(after, knob) <= knob_range(knob).1
        }),
{
}

impl AeroSurfaceConfig {
    /// The model covers the surface, and goes on to do so wherever its sliders are
    /// moved: each of its angles is within what the others leave it.
    pub open spec fn slidable(self) -> bool {
        &&& self.sound()
        &&& -15_000_000_000 <= self.zero_lift_aoa <= 15_000_000_000
        &&& -30_000_000_000 <= self.stall_angle_high <= 30_000_000_000
        &&& -30_000_000_000 <= self.stall_angle_low <= 30_000_000_000
    }
}

/// Every surface can be tuned.
pub open spec fn surfaces_slidable(config: FlightModelConfig) -> bool {
    &&& config.wing.slidable()
    &&& config.aileron.slidable()
    &&& config.elevator.slidable()
    &&& config.rudder.slidable()
    &&& config.body_lift.slidable()
}

/// The model can be simulated: the controller, the weighing, the gear, the surfaces
/// and the body accept it, and servo and engine take time to respond.
pub open spec fn computable(config: FlightModelConfig) -> bool {
    &&& config.flyable()
    &&& config.weighable()
    &&& config.landing_gear.sound()
    &&& config.landing_gear.mountable()
    &&& surfaces_slidable(config)
    &&& config.ground_effect_strength <= 99_000_000_000
    &&& config.draggable()
    &&& 0 <= config.prediction_fraction <= 1_000_000_000
    &&& config.servo_tau > 0
    &&& config.engine_spool_up_tau > 0
    &&& config.engine_spool_down_tau > 0
    &&& 0 < config.air_density <= 10_000_000_000
}

proof fn lemma_in_range_is_computable(config: FlightModelConfig, knob: Knob, v: i64)
    requires
        computable(config),
        knob_range(knob).0 <= v <= knob_range(knob).1,
    ensures
        computable(with_knob(config, knob, v)),
{
    let after = with_knob(config, knob, v);
    lemma_surfaces_stay_slidable(config, knob, v);
    assert(after.flyable());
    assert(after.weighable());
    assert(after.landing_gear.sound());
    assert(after.landing_gear.mountable());
    assert(after.draggable());
}

proof fn lemma_surface_stays_slidable(c: AeroSurfaceConfig, knob: SurfaceKnob, v: i64)
    requires
        c.slidable(),
        surface_range(knob).0 <= v <= surface_range(knob).1,
    ensures
        with_surface_value(c, knob, v).slidable(),
{
}

proof fn lemma_surfaces_stay_slidable(config: FlightModelConfig, knob: Knob, v: i64)
    requires
        surfaces_slidable(config),
        knob_range(knob).0 <= v <= knob_range(knob).1,
    ensures
        surfaces_slidable(with_knob(config, knob, v)),
{
    if let Knob::Surface(id, s) = knob {
        lemma_surface_stays_slidable(surface_of(config, id), s, v);
    }
}

/// The hand-tuned model can be simulated.
pub proof fn default_model_is_computable(config: FlightModelConfig)
    requires
        call_ensures(FlightModelConfig::default, (), config),
    ensures
        computable(config),
{
    assert(crate::physics::aero_surface_config::aspect(3_400_000_000, 1_000_000_000)
        == 3_400_000_000);
    assert(crate::physics::aero_surface_config::aspect(2_200_000_000, 800_000_000)
        == 2_750_000_000);
    assert(crate::physics::aero_surface_config::aspect(500_000_000, 1_570_000_000) == 318_471_337);
}

/// No slider can make the model one that cannot be simulated.
pub proof fn sliders_keep_the_model_computable(
    config: FlightModelConfig,
    knob: Knob,
    dragged: Option<i64>,
)
    requires
        computable(config),
    ensures
        computable(with_knob(config, knob, slid(config, knob, dragged))),
{
    slider_ends_in_range(config, knob, dragged);
    lemma_in_range_is_computable(config, knob, slid(config, knob, dragged));
}

/// What happened in the panel in a frame, in the order of the panel: its reset
/// button, or a slider that was drawn and perhaps dragged.
#[derive(Clone, Copy, Debug, PartialEq, Eq)]
pub enum MenuAction {
    Reset,
    Slide(Knob, Option<i64>),
}

/// The model after the first `n` actions leads to the next by one action.
pub open spec fn menu_step(
    before: FlightModelConfig,
    action: MenuAction,
    after: FlightModelConfig,
) -> bool {
    match action {
        MenuAction::Reset => call_ensures(FlightModelConfig::default, (), after),
        MenuAction::Slide(knob, dragged) => after == with_knob(
            before,
            knob,
            slid(before, knob, dragged),
        ),
    }
}

/// The models that a frame's actions lead through, one after another.
pub open spec fn menu_run(states: Seq<FlightModelConfig>, actions: Seq<MenuAction>) -> bool {
    &&& states.len() == actions.len() + 1
    &&& forall|i: int|
        0 <= i < actions.len() ==> menu_step(states[i], #[trigger] actions[i], states[i + 1])
}

/// Some run of the actions leads from one model to the other.
pub open spec fn menu_leads(
    from: FlightModelConfig,
    actions: Seq<MenuAction>,
    to: FlightModelConfig,
) -> bool {
    exists|states: Seq<FlightModelConfig>|
        #[trigger] menu_run(states, actions) && states[0] == from && states.last() == to
}

/// The tuning panel for a frame: while it is open, its actions take effect in
/// order; closed, nothing changes. Whatever is done there, a model that can be
/// simulated stays one.
pub fn draw_menu(visible: bool, config: &mut FlightModelConfig, actions: &Vec<MenuAction>)
    ensures
        if visible {
            menu_leads(*old(config), actions@, *final(config))
        } else {
            *final(config) == *old(config)
        },
        computable(*old(config)) ==> computable(*final(config)),
{
    if !visible {
        return ;
    }
    let ghost mut states: Seq<FlightModelConfig> = seq![*config];
    let mut i: usize = 0;
    while i < actions.len()
        invariant
            i <= actions.len(),
            states.len() == i + 1,
            states[0] == *old(config),
            states[i as int] == *config,
            computable(*old(config)) ==> computable(*config),
            forall|k: int|
                0 <= k < i ==> menu_step(states[k], #[trigger] actions@[k], states[k + 1]),
        decreases actions.len() - i,
    {
        match actions[i] {
            MenuAction::Reset => {
                *config = FlightModelConfig::default();
                proof {
                    default_model_is_computable(*config);
                }
            },
            MenuAction::Slide(knob, dragged) => {
                let ghost before = *config;
                slider(config, knob, dragged);
                proof {
                    if computable(before) {
                        sliders_keep_the_model_computable(before, knob, dragged);
                    }
                }
            },
        }
        proof {
            let before = states;
            states = states.push(*config);
            assert(states[i + 1] == *config);
            assert forall|k: int| 0 <= k < i + 1 implies menu_step(
                states[k],
                #[trigger] actions@[k],
                states[k + 1],
            ) by {
                if k < i {
                    assert(states[k] == before[k] && states[k + 1] == before[k + 1]);
                }
            }
        }
        i = i + 1;
    }
    assert(menu_run(states, actions@));
}

/// Opens or closes the panel when its key was pressed.
pub fn toggle_menu(visible: &mut bool, pressed: bool)
    ensures
        *final(visible) == (*old(visible) != pressed),
{
    if pressed {
        *visible = !*visible;
    }
}

/// The line on the loaded mass.
pub open spec fn mass_line(mass: int) -> Seq<char> {
    "Loaded mass: "@ + rounded_text(mass, 0) + " kg"@
}

/// The line on the total mass in the window for pilots.
pub fn total_mass_text(mass: i64) -> (text: String)
    ensures
        text@ == "Total mass: "@ + rounded_text(mass as int, 0) + " kg"@,
{
    let mut m: String = String::from_str("Total mass: ");
    push_rounded(&mut m, mass as i128, 0);
    m.append(" kg");
    m
}

/// The line on the loaded center of mass.
pub open spec fn balance_line(c: Vec3) -> Seq<char> {
    "Loaded CoM (m): "@ + rounded_text(c.x as int, 2) + ", "@ + rounded_text(c.y as int, 2) + ", "@
        + rounded_text(c.z as int, 2)
}

/// The line on the loaded inertia.
pub open spec fn inertia_line(i: Vec3) -> Seq<char> {
    "Loaded inertia: "@ + rounded_text(i.x as int, 0) + " / "@ + rounded_text(i.y as int, 0)
        + " / "@ + rounded_text(i.z as int, 0)
}

/// The live readout of the empty airframe plus the current load.
pub fn mass_readout(mass: i64, com: Vec3, inertia: Vec3) -> (lines: (String, String, String))
    ensures
        lines.0@ == mass_line(mass as int),
        lines.1@ == balance_line(com),
        lines.2@ == inertia_line(inertia),
{
    let mut m: String = String::from_str("Loaded mass: ");
    push_rounded(&mut m, mass as i128, 0);
    m.append(" kg");
    let mut c: String = String::from_str("Loaded CoM (m): ");
    push_rounded(&mut c, com.x as i128, 2);
    c.append(", ");
    push_rounded(&mut c, com.y as i128, 2);
    c.append(", ");
    push_rounded(&mut c, com.z as i128, 2);
    let mut i: String = String::from_str("Loaded inertia: ");
    push_rounded(&mut i, inertia.x as i128, 0);
    i.append(" / ");
    push_rounded(&mut i, inertia.y as i128, 0);
    i.append(" / ");
    push_rounded(&mut i, inertia.z as i128, 0);
    (m, c, i)
}

/// A slider takes the value it is dragged to, as far as its range lets it, and keeps one
/// in range when it is left alone.
pub proof fn sliders_take_the_dragged_value(config: FlightModelConfig, knob: Knob, d: i64)
    ensures
        ({
            let (lo, hi) = knob_range(knob);
            let dragged = with_knob(config, knob, slid(config, knob, Some(d)));
            let alone = with_knob(config, knob, slid(config, knob, None));
            &&& lo <= d <= hi ==> knob_value(dragged, knob) == d
            &&& d < lo ==> knob_value(dragged, knob) == lo
            &&& d > hi ==> knob_value(dragged, knob) == hi
            &&& lo <= knob_value(config, knob) <= hi ==> knob_value(alone, knob) == knob_value(
                config,
                knob,
            )
        }),
{
    slider_ends_in_range(config, knob, Some(d));
    slider_ends_in_range(config, knob, None);
}

/// A surface's slider moves no other slider of it, and no other surface.
pub proof fn surface_sliders_are_independent(
    config: FlightModelConfig,
    c: AeroSurfaceConfig,
    id: SurfaceId,
    other_id: SurfaceId,
    knob: SurfaceKnob,
    other: SurfaceKnob,
    v: i64,
)
    ensures
        surface_value(with_surface_value(c, knob, v), knob) == v,
        knob != other ==> surface_value(with_surface_value(c, knob, v), other) == surface_value(
            c,
            other,
        ),
        surface_of(with_surface(config, id, c), id) == c,
        id != other_id ==> surface_of(with_surface(config, id, c), other_id) == surface_of(
            config,
            other_id,
        ),
{
}

/// A slider along one axis leaves the other two as they are.
pub proof fn axes_are_independent(v: Vec3, axis: Axis, other: Axis, value: i64)
    ensures
        component(with_component(v, axis, value), axis) == value,
        axis != other ==> component(with_component(v, axis, value), other) == component(v, other),
{
}

}
