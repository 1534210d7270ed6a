use flight_sim::angle::{to_degrees, to_radians};
use flight_sim::camera::CameraMode;
use flight_sim::physics::aero_model::{
    effective_aspect, flow, ground_effect_factor, polar, Coefficients, Flow, Turn,
};
use flight_sim::physics::aero_surface::{
    flow_regime, lift_coeff_max_fraction, AeroSurface, ControlInputType, FlowRegime, MAX_DEFLECTION,
};
use flight_sim::physics::aero_surface_config::AeroSurfaceConfig;
use flight_sim::physics::aircraft_physics::{
    isa_density_base, local_density, predict_velocity, report_flight, rotational_damping, thrust,
    thrust_in_flight, AircraftRoot, EngineState,
};
use flight_sim::physics::airplane_controller::{
    airplane_controller, attitude, flap_lever, flight_assist, mixture_power, move_lever, stall_fade,
    AssistReading, ControllerKeys, ControllerTick,
};
use flight_sim::physics::flight_config::FlightModelConfig;
use flight_sim::physics::hull_collision::{detect_hull_collision, hull_points};
use flight_sim::physics::landing_gear::{
    apply_landing_gear, gear_legs, normal_force, rolling_coefficient, strut_contact,
    tyre_force,
};
use flight_sim::physics::simple::{ground_clamp, lift_share, turn_share};
use flight_sim::plane::{
    apply_config, is_propeller_name, propeller_blade, spawn_position, spawned_root, spin_propeller,
    surface_mounts, tag_propeller, wing_panel_rotation, Panel, PlaneState,
};
use flight_sim::vector::vec3;

const ONE: i64 = 1_000_000_000;

fn no_keys() -> ControllerKeys {
    ControllerKeys {
        throttle_up: false,
        throttle_down: false,
        mixture_rich: false,
        mixture_lean: false,
        starter: false,
        pitch_up: false,
        pitch_down: false,
        roll_right: false,
        roll_left: false,
        yaw_right: false,
        yaw_left: false,
        flaps_extend: false,
        flaps_retract: false,
    }
}

fn tick(dt: u64) -> ControllerTick {
    ControllerTick {
        dt,
        density_ratio: ONE,
        spool_up_alpha: ONE / 2,
        spool_down_alpha: ONE / 4,
        servo_alpha: ONE / 2,
    }
}

// --- Levers and engine ----------------------------------------------------

#[test]
fn levers_stop_at_their_ends() {
    assert_eq!(move_lever(0, ONE / 2, 1_000_000_000, true, false), ONE / 2);
    assert_eq!(move_lever(ONE / 2, ONE / 2, 10_000_000_000, true, false), ONE);
    assert_eq!(move_lever(ONE / 4, ONE / 2, 1_000_000_000, false, true), 0);
    assert_eq!(move_lever(ONE / 4, ONE / 2, 1_000_000_000, false, false), ONE / 4);
}

#[test]
fn mixture_matches_the_air() {
    assert_eq!(mixture_power(ONE, ONE), ONE);
    assert_eq!(mixture_power(ONE / 2, ONE / 2), ONE);
    assert_eq!(mixture_power(49_999_999, ONE), 0);
    // Half the ideal: 1 - 1.3 / 4.
    assert_eq!(mixture_power(ONE / 2, ONE), 675_000_000);
    // Twice the ideal: 1 - 0.35.
    assert_eq!(mixture_power(ONE, ONE / 2), 650_000_000);
    // Far too rich never falls below a quarter.
    assert_eq!(mixture_power(ONE, ONE / 10), 250_000_000);
}

#[test]
fn engine_cranks_then_catches() {
    let config = FlightModelConfig::default();
    let mut root = AircraftRoot::default();
    root.engine_state = EngineState::Off;
    root.throttle_percent = 0;
    let mut surfaces = Vec::new();
    let mut keys = no_keys();
    keys.starter = true;
    airplane_controller(&keys, &config, &mut root, &mut surfaces, &tick(10_000_000), CameraMode::Orbit);
    assert_eq!(root.engine_state, EngineState::Cranking);
    let second = tick(1_000_000_000);
    airplane_controller(&keys, &config, &mut root, &mut surfaces, &second, CameraMode::Orbit);
    assert_eq!(root.engine_state, EngineState::Cranking);
    airplane_controller(&keys, &config, &mut root, &mut surfaces, &second, CameraMode::Orbit);
    assert_eq!(root.engine_state, EngineState::Running);
    // Letting go of the starter does not stop a running engine.
    keys.starter = false;
    airplane_controller(&keys, &config, &mut root, &mut surfaces, &second, CameraMode::Orbit);
    assert_eq!(root.engine_state, EngineState::Running);
    // But it does end the cranking.
    root.engine_state = EngineState::Cranking;
    airplane_controller(&keys, &config, &mut root, &mut surfaces, &second, CameraMode::Orbit);
    assert_eq!(root.engine_state, EngineState::Off);
}

#[test]
fn engine_dies_without_fuel_and_does_not_start_lean() {
    let config = FlightModelConfig::default();
    let mut root = AircraftRoot::default();
    root.mixture = 0;
    let mut surfaces = Vec::new();
    airplane_controller(&no_keys(), &config, &mut root, &mut surfaces, &tick(10_000_000), CameraMode::Orbit);
    assert_eq!(root.engine_state, EngineState::Off);
    let mut keys = no_keys();
    keys.starter = true;
    root.mixture = 299_999_999;
    airplane_controller(&keys, &config, &mut root, &mut surfaces, &tick(10_000_000), CameraMode::Orbit);
    assert_eq!(root.engine_state, EngineState::Off);
}

#[test]
fn engine_spools_toward_its_target() {
    let config = FlightModelConfig::default();
    let mut root = AircraftRoot::default();
    let mut surfaces = Vec::new();
    airplane_controller(&no_keys(), &config, &mut root, &mut surfaces, &tick(10_000_000), CameraMode::Orbit);
    // Half the way to the redline at full throttle.
    assert_eq!(root.engine_rps, config.propeller.prop_max_rps / 2);
    assert_eq!(thrust(config.thrust_max, config.propeller.prop_max_rps, config.propeller.prop_max_rps), config.thrust_max);
    assert_eq!(thrust(1000 * ONE, 20 * ONE, 40 * ONE), 250 * ONE);
    assert_eq!(thrust(1000 * ONE, 0, 40 * ONE), 0);
}

#[test]
fn flaps_step_by_notch_and_run_slowly() {
    assert_eq!(flap_lever(0, true, false), 174_532_925);
    assert_eq!(flap_lever(174_532_925, true, false), 349_065_850);
    assert_eq!(flap_lever(523_598_776, true, false), 523_598_776);
    assert_eq!(flap_lever(349_065_850, false, true), 174_532_925);
    assert_eq!(flap_lever(0, false, true), 0);
    let config = FlightModelConfig::default();
    let mut root = AircraftRoot::default();
    let mut surfaces = Vec::new();
    let mut keys = no_keys();
    keys.flaps_extend = true;
    airplane_controller(&keys, &config, &mut root, &mut surfaces, &tick(10_000_000), CameraMode::Orbit);
    assert_eq!(root.flap_target, 174_532_925);
    assert!(root.flap_setting > 0 && root.flap_setting < root.flap_target);
}

#[test]
fn surfaces_follow_the_stick_within_their_stops() {
    let config = FlightModelConfig::default();
    let mut keys = no_keys();
    keys.pitch_up = true;
    let mut surfaces = vec![
        AeroSurface::control(config.elevator, ControlInputType::Pitch, ONE),
        AeroSurface::wing(config.body_lift),
    ];
    let mut root = AircraftRoot::default();
    airplane_controller(&keys, &config, &mut root, &mut surfaces, &tick(10_000_000), CameraMode::Orbit);
    // Half the way to full deflection.
    assert_eq!(surfaces[0].flap_angle, config.pitch_sensitivity / 2);
    assert_eq!(surfaces[1].flap_angle, 0);
    let a = attitude(&keys, CameraMode::Orbit);
    assert_eq!((a.pitch, a.roll, a.yaw), (1, 0, 0));
    // The free camera takes the keys away.
    let free = attitude(&keys, CameraMode::Free);
    assert_eq!((free.pitch, free.roll, free.yaw), (0, 0, 0));
    let mut surface = surfaces[0];
    surface.set_flap_angle(10 * ONE as i128);
    assert_eq!(surface.flap_angle, MAX_DEFLECTION);
}

#[test]
fn assists_yield_to_the_pilot() {
    let config = FlightModelConfig::default();
    let reading = AssistReading {
        bank: ONE / 2,
        bank_angle: 523_598_776,
        pitch: ONE / 10,
        pitch_rate: ONE / 5,
        airspeed: 50 * ONE,
    };
    let mut keys = no_keys();
    let idle = flight_assist(&keys, CameraMode::Orbit, &config, &reading);
    // 150 * 0.5 * 50 and 150 * 0.1 * 50 + 20 * 0.2 * 50 by the sines, 12 * 0.5236 * 50
    // by the angle.
    assert_eq!(idle.roll, -3_750 * ONE as i128);
    assert_eq!(idle.pitch, -950 * ONE as i128);
    assert_eq!(idle.yaw, -314_159_265_600);
    keys.roll_left = true;
    let rolling = flight_assist(&keys, CameraMode::Orbit, &config, &reading);
    assert_eq!((rolling.roll, rolling.pitch), (0, idle.pitch));
    keys.pitch_down = true;
    assert_eq!(flight_assist(&keys, CameraMode::Orbit, &config, &reading).pitch, 0);
    keys.yaw_right = true;
    let flown = flight_assist(&keys, CameraMode::Orbit, &config, &reading);
    assert_eq!((flown.roll, flown.pitch, flown.yaw), (0, 0, 0));
    let free = flight_assist(&no_keys(), CameraMode::Free, &config, &reading);
    assert_eq!((free.roll, free.pitch, free.yaw), (0, 0, 0));
    assert_eq!(stall_fade(0), 0);
    assert_eq!(stall_fade(1000 * ONE), ONE);
    // Near the stall the wings are left alone.
    let slow = AssistReading { airspeed: 25 * ONE, ..reading };
    assert_eq!(flight_assist(&no_keys(), CameraMode::Orbit, &config, &slow).roll, 0);
}

#[test]
fn propeller_bites_less_at_speed() {
    let config = FlightModelConfig::default();
    let zero = config.propeller.prop_zero_thrust_speed;
    assert_eq!(thrust_in_flight(3_200 * ONE, 0, zero), 3_200 * ONE);
    assert_eq!(thrust_in_flight(3_200 * ONE, 41 * ONE, zero), 1_600 * ONE);
    assert_eq!(thrust_in_flight(3_200 * ONE, 82 * ONE, zero), 0);
    assert_eq!(thrust_in_flight(3_200 * ONE, 300 * ONE, zero), 0);
    assert_eq!(thrust_in_flight(3_200 * ONE, 0, 0), 3_200 * ONE);
}

// --- Aerodynamics ----------------------------------------------------------

#[test]
fn angles_convert() {
    assert_eq!(to_degrees(3_141_592_654), 180_000_000_000);
    assert_eq!(to_radians(10_000_000_000), 174_532_925);
    assert_eq!(to_radians(-10_000_000_000), -174_532_925);
}

#[test]
fn flow_separates_past_the_stall() {
    assert_eq!(flow_regime(0, 300, -300, 400, -400), FlowRegime::Attached);
    assert_eq!(flow_regime(350, 300, -300, 400, -400), FlowRegime::LeavingHigh);
    assert_eq!(flow_regime(-350, 300, -300, 400, -400), FlowRegime::LeavingLow);
    assert_eq!(flow_regime(401, 300, -300, 400, -400), FlowRegime::Stalled);
    assert_eq!(flow_regime(-401, 300, -300, 400, -400), FlowRegime::Stalled);
    assert_eq!(lift_coeff_max_fraction(100_000_000), ONE);
    assert_eq!(lift_coeff_max_fraction(400_000_000), ONE / 2);
    assert_eq!(lift_coeff_max_fraction(ONE), 0);
}

fn flat_plate() -> AeroSurface {
    AeroSurface::wing(AeroSurfaceConfig::stabilizer(2 * ONE, ONE))
}

#[test]
fn plain_surface_has_a_plain_polar() {
    let s = flat_plate();
    let p = polar(&s, 0, 2 * ONE);
    // 2 pi times 2 over (2 + 2 * 6 / 4).
    assert_eq!(p.slope, 2_513_274_122);
    assert_eq!(p.zero_lift, 0);
    assert_eq!(p.stall_high, to_radians(s.config.stall_angle_high));
    // Undeflected, the stall sets in over ten degrees.
    assert_eq!(p.padded_high - p.stall_high, 174_532_925);
    // A larger aspect ratio lifts more.
    assert!(polar(&s, 0, 4 * ONE).slope > p.slope);
}

#[test]
fn lowered_flaps_shift_the_lift_curve() {
    let mut s = flat_plate();
    s.set_flap_angle(174_532_925);
    let p = polar(&s, ONE, 2 * ONE);
    // Ten degrees keep 0.8 of the deflection.
    assert!((p.zero_lift + 139_626_340).abs() < 10);
}

fn turn_of(angle: i64) -> Turn {
    let a = angle as f64 / 1e9;
    Turn { sin: (a.sin() * 1e9).round() as i64, cos: (a.cos() * 1e9).round() as i64 }
}

#[test]
fn small_angles_lift_and_barely_drag() {
    let s = flat_plate();
    let p = polar(&s, 0, 2 * ONE);
    let level = Turn { sin: 0, cos: ONE };
    let zero = flow(&p, 2 * ONE, 0);
    match zero {
        Flow::Attached { lift, angle } => assert_eq!((lift, angle), (0, 0)),
        _ => panic!("level flow is attached"),
    }
    let c = s.calculate_coefficients(&zero, 0, level, level);
    assert_eq!(c.lift, 0);
    assert_eq!(c.drag, s.config.skin_friction);
    assert_eq!(c.moment, 0);
    let five = flow(&p, 2 * ONE, to_radians(5 * ONE));
    let turn = match five {
        Flow::Attached { lift, angle } => {
            assert_eq!(lift, 219_324_543);
            turn_of(angle)
        }
        _ => panic!("five degrees is attached"),
    };
    let d = s.calculate_coefficients(&five, 0, turn, level);
    assert!(d.lift > 0 && d.drag > c.drag && d.drag < d.lift);
}

#[test]
fn square_on_flow_only_drags() {
    let s = flat_plate();
    let p = polar(&s, 0, 2 * ONE);
    let f = flow(&p, 2 * ONE, 1_570_796_327);
    let turn = match f {
        Flow::Stalled { angle } => turn_of(angle),
        _ => panic!("square on is stalled"),
    };
    let c = s.calculate_coefficients(&f, 0, turn, turn);
    // 1.98 times one less 0.41.
    assert!((c.drag - 1_168_200_000).abs() < 1000);
    assert!(c.lift.abs() < 10_000_000);
}

#[test]
fn stall_blends_between_the_two_flows() {
    let s = flat_plate();
    let p = polar(&s, 0, 2 * ONE);
    let middle = (p.stall_high + p.padded_high) / 2;
    match flow(&p, 2 * ONE, middle) {
        Flow::Leaving { share, .. } => assert!((share - ONE / 2).abs() < 100),
        _ => panic!("half way is leaving"),
    }
    match flow(&p, 2 * ONE, (p.stall_low + p.padded_low) / 2) {
        Flow::Leaving { share, .. } => assert!((share - ONE / 2).abs() < 100),
        _ => panic!("half way down is leaving"),
    }
}

#[test]
fn forces_point_along_and_across_the_flow() {
    let s = flat_plate();
    let level = Turn { sin: 0, cos: ONE };
    let mut c = s.calculate_coefficients(&Flow::Attached { lift: 0, angle: 0 }, 0, level, level);
    c.lift = ONE;
    c.drag = ONE / 10;
    c.moment = 0;
    // 2 m^2 at 10 m/s in air of 1.2 kg/m^3: 120 N of pressure force.
    let f = s.calculate_forces(&c, 1_200_000_000, -10 * ONE, 0);
    assert_eq!(f.x, -12 * ONE as i128);
    assert_eq!(f.y, 120 * ONE as i128);
    assert_eq!(f.moment, 0);
    let still = s.calculate_forces(&c, 1_200_000_000, 0, 0);
    assert_eq!((still.x, still.y, still.moment), (0, 0, 0));
    c.moment = ONE;
    let twisted = s.calculate_forces(&c, 1_200_000_000, -10 * ONE, 0);
    assert_eq!(twisted.moment, -120 * ONE as i128);
}

#[test]
fn ground_raises_the_aspect_ratio() {
    assert_eq!(ground_effect_factor(0, 11 * ONE, ONE), ONE as i128);
    assert_eq!(ground_effect_factor(ONE, 0, ONE), ONE as i128);
    assert_eq!(ground_effect_factor(ONE, 11 * ONE, ONE), 2 * ONE as i128);
    assert_eq!(ground_effect_factor(2 * ONE, 11 * ONE, ONE / 2), 2 * ONE as i128);
}

#[test]
fn air_thins() {
    assert_eq!(isa_density_base(0), ONE);
    assert_eq!(isa_density_base(10_000 * ONE), 774_430_000);
    assert_eq!(isa_density_base(100_000 * ONE), 0);
    assert_eq!(local_density(1_200_000_000, ONE / 2), 600_000_000);
}

#[test]
fn prediction_and_damping() {
    // 1000 N on 500 kg for half of 100 ms.
    let v = predict_velocity(ONE, 1000 * ONE as i128, 500 * ONE, 0, 100_000_000, ONE / 2);
    assert_eq!(v, 1_100_000_000);
    let falling = predict_velocity(0, 0, ONE, 9_810_000_000, 1_000_000_000, ONE);
    assert_eq!(falling, -9_810_000_000);
    // Pitch, yaw and roll take the third, second and first coefficient.
    let t = rotational_damping(&vec3(3 * ONE, 2 * ONE, ONE), &vec3(ONE, ONE, -ONE), 10 * ONE);
    assert_eq!(t, (-10 * ONE as i128, -20 * ONE as i128, 30 * ONE as i128));
}

#[test]
fn instruments_read_the_forces() {
    let mut state = PlaneState {
        speed: 0,
        thrust: 0,
        drag: 0,
        drag_surface: 0,
        drag_fuselage: 0,
        lift_pct: 0,
        on_ground: true,
        braking: true,
        crashed: false,
    };
    report_flight(&mut state, 50 * ONE, 900 * ONE, 100 * ONE, -5 * ONE, 4905 * ONE, 500 * ONE, 9_810_000_000);
    assert_eq!(state.drag_surface, 85 * ONE);
    assert_eq!(state.drag_fuselage, 0);
    assert_eq!(state.drag, 85 * ONE);
    assert_eq!(state.lift_pct, ONE);
    assert!(state.on_ground && state.braking && !state.crashed);
    // A weightless aircraft divides by one newton.
    report_flight(&mut state, 0, 0, 0, 0, 2 * ONE, 0, 0);
    assert_eq!(state.lift_pct, 2 * ONE);
}

// --- Gear and hull ----------------------------------------------------------

#[test]
fn struts_touch_when_low_enough() {
    let c = strut_contact(1_000_000_000, 0, ONE, 1_100_000_000).expect("in reach");
    assert_eq!((c.reach, c.compression), (ONE, 100_000_000));
    assert!(strut_contact(1_100_000_000, 0, ONE, 1_100_000_000).is_none());
    // Below the ground the strut bottoms out.
    let bottomed = strut_contact(-ONE, 0, ONE, 1_100_000_000).expect("bottomed out");
    assert_eq!((bottomed.reach, bottomed.compression), (0, 1_100_000_000));
    // Inverted, no wheel touches.
    assert!(strut_contact(0, 0, -ONE, 1_100_000_000).is_none());
}

#[test]
fn struts_push_but_never_pull() {
    let config = FlightModelConfig::default();
    let gear = config.landing_gear;
    let pushed = normal_force(&gear, 100_000_000, 0);
    assert_eq!(pushed, gear.gear_spring / 10);
    assert_eq!(normal_force(&gear, 0, -10 * ONE), 0);
    assert_eq!(rolling_coefficient(&gear, false), gear.gear_rolling_resistance);
    assert_eq!(
        rolling_coefficient(&gear, true),
        gear.gear_rolling_resistance + gear.gear_brake_strength
    );
}

#[test]
fn tyres_grip_up_to_their_load() {
    let gear = FlightModelConfig::default().landing_gear;
    let still = vec3(0, 0, 0);
    // Sliding at 0.1 m/s within the grip: 6000 N s/m.
    let gentle = tyre_force(&gear, 3_000 * ONE, &vec3(ONE / 10, 0, 0), 0, false);
    assert_eq!(gentle.lateral, vec3(-600 * ONE, 0, 0));
    assert_eq!(gentle.rolling, 0);
    // A hard skid is held to the load, along the slide.
    let hard = tyre_force(&gear, 1_000 * ONE, &vec3(3 * ONE, 0, -4 * ONE), 0, false);
    assert_eq!(hard.lateral, vec3(-600 * ONE, 0, 800 * ONE));
    assert_eq!(tyre_force(&gear, 0, &vec3(ONE, 0, 0), ONE, true).lateral, still);
    // One percent of the load resists rolling, 66 percent under brakes.
    assert_eq!(tyre_force(&gear, 3_000 * ONE, &still, ONE, false).rolling, -30 * ONE as i128);
    assert_eq!(tyre_force(&gear, 3_000 * ONE, &still, -ONE, true).rolling, 1_980 * ONE as i128);
}

#[test]
fn gear_reports_its_contacts() {
    let config = FlightModelConfig::default();
    let legs = gear_legs(&config);
    assert_eq!(legs[0].mount.z, config.landing_gear.gear_nose_z);
    assert_eq!(legs[1].mount.x, -legs[2].mount.x);
    let low = [ONE, ONE, 50 * ONE];
    let c = apply_landing_gear(&config.landing_gear, ONE, &low, &[0, 0, 0], true);
    assert!(c.nose.is_some() && c.on_ground);
}

#[test]
fn hull_below_ground_is_a_crash() {
    assert_eq!(hull_points()[0], vec3(0, 0, 6 * ONE));
    let mut crashed = false;
    let clear = [(ONE, 0), (ONE, 0), (ONE, 0), (0, 0)];
    assert!(!detect_hull_collision(&mut crashed, &clear));
    assert!(!crashed);
    let hit = [(ONE, 0), (ONE, 0), (-1, 0), (ONE, 0)];
    assert!(detect_hull_collision(&mut crashed, &hit));
    assert!(crashed);
    // The crash stays, but happens once.
    assert!(!detect_hull_collision(&mut crashed, &clear));
    assert!(crashed);
}

#[test]
fn simple_model_limits() {
    assert_eq!(turn_share(25 * ONE, 100_000_000), 600_000_000);
    assert_eq!(lift_share(100 * ONE), 1_500_000_000);
    assert_eq!(ground_clamp(0, -ONE), (500_000_000, 0));
    assert_eq!(ground_clamp(ONE, -ONE), (ONE, -ONE));
}

// --- Layout ------------------------------------------------------------------

#[test]
fn aircraft_starts_on_the_runway_with_a_closed_throttle() {
    let p = spawn_position(120 * ONE);
    assert_eq!(p, vec3(0, 121_250_000_000, -900 * ONE));
    let root = spawned_root();
    assert_eq!(root.throttle_percent, 0);
    assert_eq!(root.mixture, ONE);
}

#[test]
fn propeller_spins_with_the_engine() {
    // One revolution in a second.
    assert_eq!(spin_propeller(ONE, 1_000_000_000), 6_283_185_307);
    assert_eq!(spin_propeller(0, 1_000_000_000), 0);
    assert_eq!(propeller_blade(ONE), (1_200_000_000, 20_000_000_000, 300_000_000));
    assert!(is_propeller_name("Main_PROPeller"));
    assert!(!is_propeller_name("wing"));
    let names = vec!["wing".to_string(), "prop".to_string(), "debug propeller".to_string()];
    assert_eq!(tag_propeller(&names), vec![1, 2]);
}

#[test]
fn surfaces_are_mounted_in_pairs() {
    let config = FlightModelConfig::default();
    let mounts = surface_mounts(&config, 26_185_922);
    assert_eq!(mounts.len(), 8);
    assert_eq!(mounts[0].position.x, -mounts[1].position.x);
    assert_eq!(mounts[0].panel, Panel::Left);
    assert_eq!(mounts[1].panel, Panel::Right);
    assert_eq!(mounts[2].surface.input_multiplier, -ONE);
    assert_eq!(mounts[7].panel, Panel::Upright);
    // Tuning reaches the mounted surfaces.
    let mut tuned = config;
    tuned.wing.chord = 3 * ONE;
    let mut wing = mounts[0].surface;
    assert!(apply_config(&tuned, &mut wing));
    assert_eq!(wing.config.chord, 3 * ONE);
    let mut elevator = mounts[6].surface;
    assert!(!apply_config(&tuned, &mut elevator));
    // A surface of the body takes its configuration and stays as it is mounted.
    tuned.body_lift.chord = 2 * ONE;
    let mut body = AeroSurface::wing(config.body_lift);
    assert!(!apply_config(&tuned, &mut body));
    assert_eq!(body.config.chord, 2 * ONE);
}

#[test]
fn ground_effect_falls_with_height() {
    let mut last = i128::MAX;
    // From the deck up: the share of a Gaussian at 0, 1/2, 1 and 3/2 of the span.
    for share in [ONE, 367_879_441, 18_315_639, 123_410] {
        let factor = ground_effect_factor(ONE / 2, 11 * ONE, share);
        assert!(factor < last && factor >= ONE as i128);
        last = factor;
    }
    assert_eq!(ground_effect_factor(ONE / 2, 11 * ONE, ONE), 1_500_000_000);
    assert_eq!(ground_effect_factor(ONE / 2, 11 * ONE, 0), ONE as i128);
}

#[test]
fn aspect_ratio_is_raised_by_the_ground() {
    assert_eq!(effective_aspect(6 * ONE, 1_500_000_000), 9 * ONE);
    assert_eq!(effective_aspect(6 * ONE, ONE as i128), 6 * ONE);
    // As far as it goes.
    assert_eq!(effective_aspect(100_000_000, ONE as i128), 100_000_000);
    assert_eq!(effective_aspect(100 * ONE, 50 * ONE as i128), 5000 * ONE);
}

#[test]
fn deflected_surfaces_stall_before_they_are_square() {
    let mut s = AeroSurface::wing(AeroSurfaceConfig::default());
    for flap in [-MAX_DEFLECTION, 0, MAX_DEFLECTION] {
        s.flap_angle = flap;
        for aspect in [100_000_000, 6 * ONE, 5000 * ONE] {
            let p = polar(&s, ONE, aspect);
            let most = 1_570_796_327 - 16_000_000;
            assert!((p.stall_high - p.zero_lift).abs() <= most, "{flap} {aspect}");
            assert!((p.stall_low - p.zero_lift).abs() <= most, "{flap} {aspect}");
        }
    }
}

#[test]
fn both_wingtips_rise() {
    let incidence = Turn { sin: 600_000_000, cos: 800_000_000 };
    let dihedral = Turn { sin: 280_000_000, cos: 960_000_000 };
    let left = wing_panel_rotation(Panel::Left, incidence, dihedral);
    let right = wing_panel_rotation(Panel::Right, incidence, dihedral);
    // Toward the left tip along the span, toward the right one against it.
    assert_eq!(left.z, vec3(-960_000_000, 280_000_000, 0));
    assert_eq!(right.z, vec3(-960_000_000, -280_000_000, 0));
    // The chord is pitched nose up on both.
    assert_eq!(left.x, vec3(168_000_000, 576_000_000, 800_000_000));
    assert_eq!(right.x, vec3(-168_000_000, 576_000_000, 800_000_000));
    assert_eq!(left.y, vec3(224_000_000, 768_000_000, -600_000_000));
    let flat = wing_panel_rotation(Panel::Flat, incidence, dihedral);
    assert_eq!((flat.x, flat.y, flat.z), (vec3(0, 0, ONE), vec3(0, ONE, 0), vec3(-ONE, 0, 0)));
    let upright = wing_panel_rotation(Panel::Upright, incidence, dihedral);
    assert_eq!((upright.y, upright.z), (vec3(ONE, 0, 0), vec3(0, ONE, 0)));
}

#[test]
fn force_never_points_against_the_flow() {
    let s = AeroSurface::wing(AeroSurfaceConfig::default());
    let aspect = effective_aspect(s.config.aspect_ratio, ONE as i128);
    let p = polar(&s, ONE / 2, aspect);
    let turn = |angle: i64| {
        let (sin, cos) = (angle as f64 / 1e9).sin_cos();
        Turn { sin: (sin * 1e9) as i64, cos: (cos * 1e9) as i64 }
    };
    for degrees in -180..180 {
        let aoa = to_radians(degrees * ONE + ONE / 4);
        let f = flow(&p, aspect, aoa);
        let (counts, past) = match f {
            Flow::Attached { angle, .. } | Flow::Stalled { angle } => (turn(angle), turn(angle)),
            Flow::Leaving { angle, stalled_angle, .. } => (turn(angle), turn(stalled_angle)),
        };
        assert!(matches!(f, Flow::Stalled { .. }) || counts.cos.abs() >= 1_000_000);
        let c = s.calculate_coefficients(&f, 100_000_000, counts, past);
        assert!(c.drag >= 0, "{degrees} degrees");
        // Air at 50 m/s from that angle.
        let (sin, cos) = (aoa as f64 / 1e9).sin_cos();
        let (vx, vy) = ((-50e9 * cos) as i64, (50e9 * sin) as i64);
        let force = s.calculate_forces(&c, 1_225_000_000, vx, vy);
        let along = (force.x * vx as i128 + force.y * vy as i128) / (50 * ONE as i128);
        assert!(along >= -8, "{degrees} degrees");
    }
}

#[test]
fn drag_near_no_lift_acts_downstream() {
    let s = AeroSurface::wing(AeroSurfaceConfig::default());
    let aspect = effective_aspect(s.config.aspect_ratio, ONE as i128);
    let p = polar(&s, ONE / 2, aspect);
    for off in -200..200 {
        let f = flow(&p, aspect, p.zero_lift + off);
        let Flow::Attached { angle, .. } = f else { panic!("separated at {off}") };
        let (sin, cos) = (angle as f64 / 1e9).sin_cos();
        let t = Turn { sin: (sin * 1e9) as i64, cos: (cos * 1e9) as i64 };
        let c = s.calculate_coefficients(&f, 100_000_000, t, t);
        // Skin friction is all that is left of it.
        assert!(c.drag > 0 && c.drag <= 2 * s.config.skin_friction, "{off}: {}", c.drag);
    }
}

#[test]
fn forces_grow_with_the_square_of_the_speed() {
    let s = AeroSurface::wing(AeroSurfaceConfig::default());
    let c = Coefficients { lift: ONE, drag: ONE / 10, moment: -ONE / 20 };
    let at = |v: i64| s.calculate_forces(&c, 1_225_000_000, -v * ONE, 0);
    let (slow, fast) = (at(100), at(10_000));
    let near = |a: i128, b: i128| (a - 10_000 * b).abs() <= 10_000_000;
    assert!(near(fast.x, slow.x) && near(fast.y, slow.y) && near(fast.moment, slow.moment));
    // Half of 1.225 by 100 squared on the area, a tenth of it drag.
    let area = s.config.chord as i128 * s.config.span as i128 / ONE as i128;
    assert_eq!(slow.x, -(6125 * area) / 10);
    assert_eq!(slow.y, 6125 * area);
}
