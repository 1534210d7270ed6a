use flight_sim::camera::CameraMode;
use flight_sim::physics::aero_model::SurfaceForce;
use flight_sim::physics::aircraft_physics::local_density;
use flight_sim::physics::bi_vector3::BiVector3;
use flight_sim::physics::flight_config::FlightModelConfig;
use flight_sim::physics::landing_gear::StrutContact;
use flight_sim::physics::rigid_body::{
    air_over, apply_aero_forces, frame_vector, predict_motion, sum_aero_forces, surface_load,
    world_vector, Axes, Body, Inertia,
};
use flight_sim::physics::simple::{simple_plane_physics, SimpleKeys, SimplePlanePhysics};
use flight_sim::physics::wheels::{
    contact_point, hull_places, mount_points, point_velocity, wheel_force, wheel_motion,
    world_point,
};
use flight_sim::plane::PlaneState;
use flight_sim::vector::{length_of, unit_vector, vec3, Vec3, Wide3};

const ONE: i64 = 1_000_000_000;
const N: i128 = 1_000_000_000;

fn level() -> Axes {
    Axes { x: vec3(ONE, 0, 0), y: vec3(0, ONE, 0), z: vec3(0, 0, ONE) }
}

/// A quarter turn to the right: the nose points along the world's x axis.
fn turned() -> Axes {
    Axes { x: vec3(0, 0, -ONE), y: vec3(0, ONE, 0), z: vec3(ONE, 0, 0) }
}

fn wide(x: i128, y: i128, z: i128) -> Wide3 {
    Wide3 { x: x * N, y: y * N, z: z * N }
}

fn idle_state() -> PlaneState {
    PlaneState {
        speed: 0,
        thrust: 0,
        drag: 0,
        drag_surface: 0,
        drag_fuselage: 0,
        lift_pct: 0,
        on_ground: true,
        braking: false,
        crashed: false,
    }
}

#[test]
fn axes_turn_vectors_there_and_back() {
    let v = wide(1, 2, 3);
    assert_eq!(world_vector(&level(), &v), v);
    assert_eq!(world_vector(&turned(), &v), wide(3, 2, -1));
    assert_eq!(frame_vector(&turned(), &wide(3, 2, -1)), v);
}

#[test]
fn vectors_have_length_and_direction() {
    assert_eq!(length_of(&vec3(3 * ONE, 4 * ONE, 0)), 5 * ONE);
    assert_eq!(unit_vector(&vec3(3 * ONE, 4 * ONE, 0)), vec3(600_000_000, 800_000_000, 0));
    assert_eq!(unit_vector(&vec3(0, 0, 0)), vec3(0, 0, 0));
}

#[test]
fn rotation_adds_to_the_air() {
    let ahead = vec3(0, 0, 50 * ONE);
    let still = vec3(0, 0, 0);
    let right = vec3(5 * ONE, 0, 0);
    assert_eq!(air_over(&ahead, &still, &right), vec3(0, 0, -50 * ONE));
    // Rolling about the nose lifts the right wing through the air.
    assert_eq!(air_over(&ahead, &vec3(0, 0, ONE), &right), vec3(0, -5 * ONE, -50 * ONE));
    assert_eq!(point_velocity(&ahead, &vec3(0, 0, ONE), &right), vec3(0, 5 * ONE, 50 * ONE));
}

#[test]
fn surface_load_has_a_lever() {
    let f = SurfaceForce { x: 10 * N, y: 100 * N, moment: 7 * N };
    let load = surface_load(&f, &level(), &vec3(2 * ONE, 0, -3 * ONE));
    assert_eq!(load.force, wide(10, 100, 0));
    // Arm (2, 0, -3) with force (10, 100, 0) gives (300, -30, 200), and the moment
    // is about the span.
    assert_eq!(load.torque, wide(300, -30, 207));
    // Through the center of mass there is only the moment.
    assert_eq!(surface_load(&f, &level(), &vec3(0, 0, 0)).torque, wide(0, 0, 7));
}

#[test]
fn mirrored_wings_do_not_roll() {
    let f = SurfaceForce { x: 0, y: 800 * N, moment: 0 };
    let right = surface_load(&f, &level(), &vec3(3 * ONE, 0, ONE));
    let left = surface_load(&f, &level(), &vec3(-3 * ONE, 0, ONE));
    let both = sum_aero_forces(&vec![right, left]);
    assert_eq!(both.force, wide(0, 1600, 0));
    assert_eq!(both.torque, wide(-1600, 0, 0));
    assert_eq!(both, sum_aero_forces(&vec![left, right]));
    assert_eq!(sum_aero_forces(&Vec::new()), BiVector3::default());
}

#[test]
fn loads_add_and_halve() {
    let a = BiVector3 { force: wide(1, 2, 3), torque: wide(4, 5, 6) };
    let b = BiVector3 { force: wide(10, 0, 0), torque: wide(0, 10, 0) };
    let mut sum = a.plus(&b);
    assert_eq!(sum, BiVector3 { force: wide(11, 2, 3), torque: wide(4, 15, 6) });
    sum.accumulate(&b);
    assert_eq!(sum.force, wide(21, 2, 3));
    assert_eq!(a.plus(&a).times(ONE / 2), a);
}

#[test]
fn motion_is_predicted_half_a_step_ahead() {
    let mut config = FlightModelConfig::default();
    config.prediction_fraction = ONE / 2;
    config.gravity = 10 * ONE;
    let body = Body { axes: level(), velocity: vec3(0, 0, 40 * ONE), rates: vec3(0, ONE, 0) };
    let inertia = Inertia {
        mass: 1000 * ONE,
        principal: vec3(100 * ONE, 200 * ONE, 400 * ONE),
        axes: level(),
    };
    let loads = BiVector3 { force: wide(0, 5000, -1000), torque: wide(50, 0, -400) };
    // 3000 N of thrust over 0.1 s, half of it ahead.
    let (v, w) = predict_motion(&body, &inertia, &loads, 3000 * ONE, &config, 100_000_000);
    assert_eq!(v, Wide3 { x: 0, y: -250_000_000, z: 40_100_000_000 });
    assert_eq!(w, Wide3 { x: 25_000_000, y: N, z: -50_000_000 });
    config.prediction_fraction = 0;
    let (v, w) = predict_motion(&body, &inertia, &loads, 3000 * ONE, &config, 100_000_000);
    assert_eq!((v, w), (wide(0, 0, 40), wide(0, 1, 0)));
}

#[test]
fn forces_of_a_step_come_together() {
    let mut config = FlightModelConfig::default();
    config.fuselage_drag = vec3(0, 0, 2 * ONE);
    config.aero_damp = vec3(0, 3 * ONE, 0);
    config.gravity = 10 * ONE;
    let body = Body { axes: turned(), velocity: vec3(10 * ONE, 0, 0), rates: vec3(0, ONE, 0) };
    let now = BiVector3 { force: wide(-60, 4000, 0), torque: wide(10, 0, 0) };
    let then = BiVector3 { force: wide(-100, 6000, 0), torque: wide(30, 0, 0) };
    let mut state = idle_state();
    let total =
        apply_aero_forces(&mut state, &body, &now, &then, 500 * ONE, ONE, 1000 * ONE, &config);
    // Average (-80, 5000, 0), thrust 500 along the nose, drag 0.5 * 1 * 2 * 10^2.
    assert_eq!(total.force, wide(-80 + 500 - 100, 5000, 0));
    // Average (20, 0, 0), damping 3 * 1 * 10 about the yaw axis.
    assert_eq!(total.torque, wide(20, -30, 0));
    assert_eq!(state.speed, 10 * ONE);
    assert_eq!(state.thrust, 500 * ONE);
    assert_eq!(state.drag_surface, 68 * ONE);
    assert_eq!(state.drag_fuselage, 100 * ONE);
    assert_eq!(state.drag, 168 * ONE);
    assert_eq!(state.lift_pct, ONE / 2);
    assert!(state.on_ground);
}

fn reported_drag(velocity: Vec3, density: i64) -> i64 {
    let mut config = FlightModelConfig::default();
    config.fuselage_drag = vec3(6 * ONE, 4 * ONE, ONE / 2);
    let body = Body { axes: turned(), velocity, rates: vec3(0, 0, 0) };
    let none = BiVector3::default();
    let mut state = idle_state();
    apply_aero_forces(&mut state, &body, &none, &none, 0, density, 1000 * ONE, &config);
    state.drag_fuselage
}

#[test]
fn reported_drag_quadruples_at_twice_the_speed() {
    let slow = vec3(30 * ONE, -4 * ONE, 7 * ONE);
    let fast = vec3(60 * ONE, -8 * ONE, 14 * ONE);
    let (a, b) = (reported_drag(slow, 1_225_000_000), reported_drag(fast, 1_225_000_000));
    assert!(a > 100 * ONE);
    assert!((b - 4 * a).abs() < 100_000);
    // Straight ahead: half of 1.2 times 0.5 times the square of 40.
    assert_eq!(reported_drag(vec3(40 * ONE, 0, 0), 1_200_000_000), 480 * ONE);
    assert_eq!(reported_drag(vec3(80 * ONE, 0, 0), 1_200_000_000), 1920 * ONE);
}

#[test]
fn reported_drag_follows_the_density() {
    let v = vec3(30 * ONE, -4 * ONE, 7 * ONE);
    let thin = local_density(1_225_000_000, 742_000_000) as i64;
    let (a, b) = (reported_drag(v, 1_225_000_000), reported_drag(v, thin));
    assert!((b - (a as i128 * 742 / 1000) as i64).abs() < 100_000);
    assert_eq!(reported_drag(vec3(60 * ONE, 0, 0), 600_000_000), 540 * ONE);
}

#[test]
fn far_too_large_readings_are_held() {
    let mut config = FlightModelConfig::default();
    config.gravity = 0;
    config.fuselage_drag = vec3(0, 0, 0);
    let body = Body { axes: level(), velocity: vec3(0, 0, ONE), rates: vec3(0, 0, 0) };
    let huge = 1_000_000_000_000_000_000_000_000_000;
    let load = BiVector3 { force: Wide3 { x: 0, y: huge, z: -huge }, torque: wide(0, 0, 0) };
    let mut state = idle_state();
    apply_aero_forces(&mut state, &body, &load, &load, 0, ONE, 1000 * ONE, &config);
    assert_eq!(state.drag, (i64::MAX as i128 * 85 / 100) as i64);
    assert_eq!(state.lift_pct, i64::MAX);
}

#[test]
fn arm_adds_the_torque_of_the_force() {
    let f = SurfaceForce { x: -20 * N, y: 300 * N, moment: 5 * N };
    let at_center = surface_load(&f, &turned(), &vec3(0, 0, 0));
    // Only the moment about the span is left.
    assert_eq!(at_center.torque, wide(5, 0, 0));
    let at_arm = surface_load(&f, &turned(), &vec3(ONE, 2 * ONE, 3 * ONE));
    assert_eq!(at_arm.force, at_center.force);
    assert_eq!(at_arm.force, wide(0, 300, 20));
    // (1, 2, 3) crossed with (0, 300, 20).
    assert_eq!(at_arm.torque, wide(5 + 40 - 900, -20, 300));
}

#[test]
fn air_along_the_span_is_ignored() {
    let air = wide(-40, 3, 1);
    let local = frame_vector(&turned(), &air);
    // The span of these axes is the world's x.
    let slipping = frame_vector(&turned(), &wide(-40 + 25, 3, 1));
    assert_eq!((local.x, local.y), (slipping.x, slipping.y));
    assert_ne!(local.z, slipping.z);
}

#[test]
fn parked_aircraft_feels_no_air() {
    let config = FlightModelConfig::default();
    let body = Body { axes: turned(), velocity: vec3(0, 0, 0), rates: vec3(0, 0, 0) };
    let none = BiVector3::default();
    let mut state = idle_state();
    let total = apply_aero_forces(&mut state, &body, &none, &none, 0, ONE, 1000 * ONE, &config);
    assert_eq!(total, none);
    assert_eq!(state, idle_state());
}

#[test]
fn wheels_and_hull_are_placed_in_the_world() {
    let origin = vec3(100 * ONE, 50 * ONE, 0);
    assert_eq!(
        world_point(&origin, &turned(), &vec3(0, ONE, 6 * ONE)),
        vec3(106 * ONE, 51 * ONE, 0)
    );
    let mut config = FlightModelConfig::default();
    config.landing_gear.gear_track = 4 * ONE;
    config.landing_gear.gear_nose_z = 3 * ONE;
    config.landing_gear.gear_main_z = -ONE;
    config.landing_gear.gear_nose_mount_height = -ONE;
    config.landing_gear.gear_main_mount_height = -2 * ONE;
    let [nose, left, right] = mount_points(&origin, &turned(), &config);
    assert_eq!(nose, vec3(103 * ONE, 49 * ONE, 0));
    assert_eq!(left, vec3(99 * ONE, 48 * ONE, 2 * ONE));
    assert_eq!(right, vec3(99 * ONE, 48 * ONE, -2 * ONE));
    let [tip, tail, _, _] = hull_places(&origin, &turned());
    assert_eq!(tip, vec3(106 * ONE, 50 * ONE, 0));
    assert_eq!(tail, vec3(94 * ONE, 50_300_000_000, 0));
    assert_eq!(contact_point(&nose, &turned(), ONE), vec3(103 * ONE, 48 * ONE, 0));
}

#[test]
fn wheel_velocity_splits_into_sink_roll_and_slide() {
    let m = wheel_motion(&level(), &vec3(2 * ONE, -3 * ONE, 20 * ONE));
    assert_eq!(m.sink, 3 * ONE);
    assert_eq!(m.heading, vec3(0, 0, ONE));
    assert_eq!(m.rolling, 20 * ONE);
    assert_eq!(m.slide, vec3(2 * ONE, 0, 0));
}

#[test]
fn wheels_answer_the_ground() {
    let mut config = FlightModelConfig::default();
    config.landing_gear.gear_spring = 10_000 * ONE;
    config.landing_gear.gear_damping = 0;
    config.landing_gear.gear_grip = 100 * ONE;
    config.landing_gear.gear_rolling_resistance = 20_000_000;
    config.landing_gear.gear_brake_strength = 480_000_000;
    let gear = config.landing_gear;
    let contact = StrutContact { reach: ONE, compression: 100_000_000 };
    let rolling = wheel_motion(&level(), &vec3(2 * ONE, 0, 20 * ONE));
    // The spring carries 1000 N; grip 200 N against the slide, 2 % against rolling.
    let free = wheel_force(&gear, &level(), &contact, &rolling, ONE, false);
    assert_eq!(free, wide(-200, 1000, -20));
    let braked = wheel_force(&gear, &level(), &contact, &rolling, ONE, true);
    assert_eq!(braked, wide(-200, 1000, -500));
    let parked = wheel_motion(&level(), &vec3(0, 0, 0));
    assert_eq!(wheel_force(&gear, &level(), &contact, &parked, 0, true), wide(0, 1000, 0));
}

fn no_simple_keys() -> SimpleKeys {
    SimpleKeys {
        throttle_up: false,
        throttle_down: false,
        pitch_down: false,
        pitch_up: false,
        roll_left: false,
        roll_right: false,
        yaw_left: false,
        yaw_right: false,
    }
}

fn nose() -> Vec3 {
    vec3(0, 0, ONE)
}

#[test]
fn arcade_cruise_balances_at_half_throttle() {
    let mut physics = SimplePlanePhysics { velocity: vec3(0, 0, 25 * ONE), throttle: ONE / 2 };
    let mut position = vec3(0, 100 * ONE, 0);
    let mut state = idle_state();
    let turn = simple_plane_physics(
        &mut physics,
        &mut position,
        &mut state,
        &nose(),
        &no_simple_keys(),
        CameraMode::Orbit,
        100_000_000,
    );
    assert_eq!((turn.pitch, turn.roll, turn.yaw), (0, 0, 0));
    assert_eq!((state.thrust, state.drag), (10 * ONE, 10 * ONE));
    assert_eq!(state.lift_pct, ONE);
    assert_eq!(physics.velocity, vec3(0, -980_000_000, 25 * ONE));
    assert_eq!(position, vec3(0, 99_902_000_000, 2_500_000_000));
}

#[test]
fn arcade_controls_need_speed_and_the_chase_camera() {
    let keys = SimpleKeys {
        throttle_up: true,
        pitch_down: true,
        roll_right: true,
        yaw_left: true,
        yaw_right: true,
        ..no_simple_keys()
    };
    let fly = |mode: CameraMode, speed: i64| {
        let mut physics = SimplePlanePhysics { velocity: vec3(0, 0, speed), throttle: ONE / 2 };
        let mut position = vec3(0, 100 * ONE, 0);
        let mut state = idle_state();
        let turn = simple_plane_physics(
            &mut physics,
            &mut position,
            &mut state,
            &nose(),
            &keys,
            mode,
            100_000_000,
        );
        (physics.throttle, turn.pitch, turn.roll, turn.yaw)
    };
    assert_eq!(fly(CameraMode::Orbit, 50 * ONE), (550_000_000, 80_000_000, -120_000_000, 0));
    assert_eq!(fly(CameraMode::Orbit, 5 * ONE), (550_000_000, 16_000_000, -24_000_000, 0));
    assert_eq!(fly(CameraMode::Free, 50 * ONE), (550_000_000, 0, 0, 0));
}

#[test]
fn arcade_velocity_turns_toward_the_nose_and_stops_at_the_ground() {
    // Sideways at cruise speed, a sixth of a second turns the velocity all the way.
    let mut physics = SimplePlanePhysics { velocity: vec3(25 * ONE, 0, 0), throttle: 0 };
    let mut position = vec3(0, 500_000_000, 0);
    let mut state = idle_state();
    simple_plane_physics(
        &mut physics,
        &mut position,
        &mut state,
        &nose(),
        &no_simple_keys(),
        CameraMode::Orbit,
        200_000_000,
    );
    assert_eq!(physics.velocity, vec3(0, 0, 23 * ONE));
    assert_eq!(position, vec3(0, 500_000_000, 4_600_000_000));
    assert_eq!(state.speed, 23 * ONE);
}
