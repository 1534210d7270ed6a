use flight_sim::camera::{
    fit_canvas, free_cam_control, initial_scale, toggle_camera_mode, track_cam_control, CameraMode,
    FreeCam, FreeCamKeys, TrackCam, TrackCamKeys,
};
use flight_sim::fog::{apply_fog, fog_visibility, toggle_fog, FogAction, FogSettings};
use flight_sim::gizmos::{
    aerodynamic_center, draw_aero_gizmos, load_change, toggle_gizmos, Sample, SurfaceLoad,
};
use flight_sim::lights::{
    aircraft_lights, animate_beacon, animate_strobes, beacon_intensity, landing_intensity,
    light_position, toggle_landing_light, LightKind, LightTimers,
};
use flight_sim::physics::aircraft_physics::EngineState;
use flight_sim::physics::flight_config::LightsConfig;
use flight_sim::sky::{
    advance_clock, horizon_fade, scatter_stars, sky_look, star_alpha, star_indices, star_size,
    sun_angle, DayNightCycle, NUM_STARS,
};
use flight_sim::vector::{vec3, Wide3};
use flight_sim::waypoints::{
    distance_text, draw_waypoint_labels, group_slabs, label_lines, off_screen, to_window,
    waypoint_label, SlabSite,
};

const ONE: i64 = 1_000_000_000;
const KM: i64 = 1_000_000_000_000;

fn free_keys() -> FreeCamKeys {
    FreeCamKeys {
        look_left: false,
        look_right: false,
        look_up: false,
        look_down: false,
        forward: false,
        back: false,
        left: false,
        right: false,
        up: false,
        down: false,
        shifts: 0,
    }
}

// --- Cameras -----------------------------------------------------------------

#[test]
fn canvas_fits_the_window() {
    assert_eq!(fit_canvas(640, 360), ONE);
    assert_eq!(fit_canvas(1280, 720), ONE / 2);
    assert_eq!(fit_canvas(1280, 360), ONE);
    // Zooms are whole: as large as fits, and never below one.
    assert_eq!(fit_canvas(1480, 1000), ONE / 2);
    assert_eq!(fit_canvas(1919, 1080), ONE / 2);
    assert_eq!(fit_canvas(100, 0), ONE);
    assert_eq!(initial_scale(None), ONE / 4);
    assert_eq!(initial_scale(Some((1920, 1080))), ONE / 3);
    assert_eq!(initial_scale(Some((1900, 1000))), ONE / 3);
}

#[test]
fn camera_toggles_and_takes_over_the_view() {
    let mut mode = CameraMode::default();
    let mut free = FreeCam::default();
    assert_eq!(mode, CameraMode::Orbit);
    assert_eq!((free.yaw, free.pitch), (0, -300_000_000));
    toggle_camera_mode(true, &mut mode, Some((7, 9)), &mut free);
    assert_eq!(mode, CameraMode::Free);
    assert_eq!((free.yaw, free.pitch), (7, 9));
    toggle_camera_mode(false, &mut mode, Some((1, 1)), &mut free);
    assert_eq!(mode, CameraMode::Free);
    toggle_camera_mode(true, &mut mode, Some((1, 1)), &mut free);
    assert_eq!(mode, CameraMode::Orbit);
    assert_eq!((free.yaw, free.pitch), (7, 9));
}

#[test]
fn free_camera_has_three_speeds() {
    let mut cam = FreeCam { yaw: 0, pitch: 0 };
    let mut keys = free_keys();
    keys.forward = true;
    let second = 1_000_000_000;
    let slow = free_cam_control(CameraMode::Free, &keys, second, &mut cam).expect("moves");
    assert_eq!((slow.distance, slow.forward, slow.right, slow.up), (5 * ONE, 1, 0, 0));
    keys.shifts = 1;
    assert_eq!(free_cam_control(CameraMode::Free, &keys, second, &mut cam).map(|m| m.distance), Some(300 * ONE));
    keys.shifts = 2;
    assert_eq!(free_cam_control(CameraMode::Free, &keys, second, &mut cam).map(|m| m.distance), Some(2000 * ONE));
    assert!(free_cam_control(CameraMode::Orbit, &keys, second, &mut cam).is_none());
    keys.look_up = true;
    free_cam_control(CameraMode::Free, &keys, 10 * second, &mut cam);
    assert_eq!(cam.pitch, 1_500_000_000);
}

#[test]
fn tracking_camera_stays_in_its_range() {
    let mut track = TrackCam::default();
    assert_eq!(track.distance, 15 * ONE);
    let mut keys = TrackCamKeys {
        zoom_in: true,
        zoom_out: false,
        look_left: false,
        look_right: false,
        look_up: false,
        look_down: false,
    };
    track_cam_control(CameraMode::Orbit, &keys, 1_000_000_000, &mut track);
    assert_eq!(track.distance, 3 * ONE);
    keys.zoom_in = false;
    keys.zoom_out = true;
    track_cam_control(CameraMode::Orbit, &keys, 5_000_000_000, &mut track);
    assert_eq!(track.distance, 100 * ONE);
    keys.look_left = true;
    let before = track;
    track_cam_control(CameraMode::Free, &keys, 5_000_000_000, &mut track);
    assert_eq!(track, before);
}

// --- Sky ---------------------------------------------------------------------

#[test]
fn clock_wraps_at_midnight() {
    let mut cycle = DayNightCycle::default();
    assert_eq!(cycle.time_of_day, 350_000_000);
    advance_clock(&mut cycle, 10_000_000_000);
    assert_eq!(cycle.time_of_day, 400_000_000);
    advance_clock(&mut cycle, 130_000_000_000);
    assert_eq!(cycle.time_of_day, 50_000_000);
    cycle.speed = 0;
    advance_clock(&mut cycle, 130_000_000_000);
    assert_eq!(cycle.time_of_day, 50_000_000);
}

#[test]
fn noon_is_bright_and_night_is_dark() {
    let noon = sky_look(ONE, 0);
    assert_eq!(noon.daylight, ONE);
    assert_eq!(noon.illuminance, 11_000 * ONE);
    assert_eq!(noon.ambient, 400 * ONE);
    assert_eq!(noon.sky, vec3(450_000_000, 650_000_000, 900_000_000));
    assert_eq!(noon.fog, noon.sky);
    assert_eq!(noon.star_visibility, 0);
    assert!(noon.disc_visible);
    let night = sky_look(-ONE, 0);
    assert_eq!(night.daylight, 0);
    assert_eq!(night.illuminance, 0);
    assert_eq!(night.ambient, 60 * ONE);
    assert_eq!(night.sky, vec3(20_000_000, 20_000_000, 60_000_000));
    assert_eq!(night.star_visibility, ONE);
    assert!(!night.disc_visible);
    let dusk = sky_look(0, ONE);
    assert_eq!(dusk.sunset, ONE);
    assert_eq!(dusk.daylight, ONE / 2);
    assert_eq!(dusk.sky, vec3(900_000_000, 450_000_000, 200_000_000));
    assert_eq!(dusk.sun, vec3(ONE, 450_000_000, 150_000_000));
    // Full haze is grey.
    assert_eq!(dusk.fog, vec3(527_620_000, 527_620_000, 527_620_000));
}

#[test]
fn constellations_are_the_same_every_run() {
    let stars = scatter_stars(NUM_STARS);
    assert_eq!(stars.len(), 2500);
    let first = stars[0];
    assert_eq!(first.phi, 5_402_245_532);
    assert_eq!(first.theta, 1_238_734_052);
    assert_eq!(first.brightness, 940_293_920);
    assert_eq!(first.phase, 1_187_207_128);
    assert_eq!(first.twinkle_speed, 3_701_848_506);
    let indices = star_indices(2);
    assert_eq!(indices, vec![0, 1, 2, 0, 2, 3, 4, 5, 6, 4, 6, 7]);
}

#[test]
fn stars_fade_and_twinkle() {
    assert_eq!(horizon_fade(-ONE), 0);
    assert_eq!(horizon_fade(ONE), ONE);
    assert_eq!(star_alpha(0, ONE, ONE), 0);
    assert_eq!(star_alpha(ONE, 0, ONE), 0);
    assert_eq!(star_alpha(ONE, ONE, ONE), ONE);
    assert_eq!(star_alpha(ONE, ONE / 2, ONE), ONE / 2);
    assert_eq!(star_alpha(ONE, ONE, 2 * ONE), ONE);
    // (4 + 2) * 3.
    assert_eq!(star_size(ONE, ONE), 18 * ONE);
    assert_eq!(star_size(ONE, 2 * ONE), 21_600_000_000);
}

// --- Fog and lights ----------------------------------------------------------

#[test]
fn fog_follows_its_setting() {
    assert_eq!(apply_fog(true, false, false), FogAction::Build);
    assert_eq!(apply_fog(true, true, true), FogAction::Build);
    assert_eq!(apply_fog(true, false, true), FogAction::Keep);
    assert_eq!(apply_fog(false, false, true), FogAction::Remove);
    assert_eq!(apply_fog(false, true, false), FogAction::Keep);
    let mut settings = FogSettings::default();
    assert_eq!(fog_visibility(&settings), 35 * KM);
    toggle_fog(true, &mut settings);
    assert!(!settings.enabled);
    settings.visibility = 0;
    assert_eq!(fog_visibility(&settings), ONE);
}

#[test]
fn strobes_flash_once_per_period() {
    let config = LightsConfig::default();
    let mut timers = LightTimers::default();
    assert_eq!(animate_strobes(&config, &mut timers, 0), config.strobe_intensity);
    assert_eq!(animate_strobes(&config, &mut timers, config.strobe_on_time as u64), 0);
    let rest = (config.strobe_period - config.strobe_on_time) as u64;
    assert_eq!(animate_strobes(&config, &mut timers, rest), config.strobe_intensity);
    assert_eq!(timers.strobe_t, 0);
}

#[test]
fn beacon_pulses_with_the_engine() {
    let config = LightsConfig::default();
    let mut timers = LightTimers::default();
    let half = (config.beacon_period / 2) as u64;
    assert_eq!(animate_beacon(&config, &mut timers, EngineState::Off, half), None);
    assert_eq!(timers.beacon_t, 0);
    assert_eq!(animate_beacon(&config, &mut timers, EngineState::Running, half), Some(ONE / 2));
    assert_eq!(animate_beacon(&config, &mut timers, EngineState::Cranking, half), Some(0));
    assert_eq!(beacon_intensity(ONE, 800), 800);
    assert_eq!(beacon_intensity(0, 800), 100);
    assert_eq!(beacon_intensity(-ONE, 800), 0);
}

#[test]
fn landing_light_has_a_switch() {
    let config = LightsConfig::default();
    let mut timers = LightTimers::default();
    assert_eq!(landing_intensity(&config, Some(timers.landing_light_on)), config.landing_intensity);
    toggle_landing_light(true, &mut timers);
    assert_eq!(landing_intensity(&config, Some(timers.landing_light_on)), 0);
    toggle_landing_light(false, &mut timers);
    assert!(!timers.landing_light_on);
    assert_eq!(landing_intensity(&config, None), 0);
}

#[test]
fn eight_lights_are_mounted_in_metres() {
    let config = LightsConfig::default();
    let lights = aircraft_lights(&config);
    assert_eq!(lights[0].kind, LightKind::NavLeft);
    assert_eq!(lights[7].kind, LightKind::Landing);
    // Only the navigation lights start lit.
    for light in lights.iter() {
        let nav = matches!(light.kind, LightKind::NavLeft | LightKind::NavRight | LightKind::NavTail);
        assert_eq!(light.intensity > 0, nav);
        assert_eq!(light.position, light_position(&config, light.kind));
    }
    assert_eq!(lights[0].position.x, config.nav_left_pos.x.div_euclid(10));
}

// --- Arrows ------------------------------------------------------------------

#[test]
fn arrows_are_drawn_when_asked_for() {
    let mut visible = false;
    let still = vec3(0, 0, 0);
    let loads = vec![
        SurfaceLoad { force: vec3(0, 1000 * ONE, 0), control: true },
        SurfaceLoad { force: vec3(30_000 * ONE, 0, 40_000 * ONE), control: false },
        SurfaceLoad { force: still, control: false },
    ];
    assert!(draw_aero_gizmos(visible, &still, 0, 0, &loads, &still, &still).is_none());
    toggle_gizmos(&mut visible, true);
    let g = draw_aero_gizmos(visible, &vec3(0, 0, 50 * ONE), 4000 * ONE, ONE / 2, &loads, &still, &still)
        .expect("visible");
    assert_eq!(g.velocity, Some(vec3(0, 0, 10 * ONE)));
    assert_eq!(g.thrust, 5 * ONE);
    assert_eq!(g.surfaces[0], (vec3(0, 400_000_000, 0), true));
    // A hard pull is capped at six metres.
    assert_eq!(g.surfaces[1], (vec3(3_600_000_000, 0, 4_800_000_000), false));
    assert_eq!(g.surfaces[2], (still, false));
    assert_eq!(g.center, None);
}

#[test]
fn sun_is_overhead_at_noon() {
    let height = |time: i64| -(sun_angle(time) as f64 / 1e9).sin();
    assert_eq!(sun_angle(0), 1_570_796_327);
    assert_eq!(sun_angle(ONE / 2), 4_712_388_980);
    assert_eq!(sun_angle(ONE), sun_angle(0));
    assert_eq!(sun_angle(-ONE / 2), sun_angle(ONE / 2));
    // Midnight, sunrise, noon and sunset.
    assert!((height(0) + 1.0).abs() < 1e-8);
    assert!(height(ONE / 4).abs() < 1e-8);
    assert!((height(ONE / 2) - 1.0).abs() < 1e-8);
    assert!(height(3 * ONE / 4).abs() < 1e-8);
    // The morning is lit, and the night is not.
    assert!(height(DayNightCycle::default().time_of_day) > 0.5);
    assert!(height(9 * ONE / 10) < 0.0);
}

#[test]
fn strong_forces_are_drawn_too() {
    // A million newtons each way, and the moment of them at two metres.
    let force = vec3(0, 1_000_000 * ONE, 0);
    let moment = vec3(2_000_000 * ONE, 0, 0);
    let center = aerodynamic_center(50 * ONE, &force, &moment);
    assert_eq!(center, Some(vec3(0, 0, -2 * ONE)));
}

#[test]
fn aerodynamic_center_needs_speed_and_response() {
    let force = vec3(0, 100 * ONE, 0);
    let moment = vec3(50 * ONE, 0, 0);
    // Force crossed with moment over force squared: -50 / 100 m along z.
    assert_eq!(aerodynamic_center(50 * ONE, &force, &moment), Some(vec3(0, 0, -500_000_000)));
    assert_eq!(aerodynamic_center(5 * ONE, &force, &moment), None);
    assert_eq!(aerodynamic_center(50 * ONE, &vec3(0, ONE, 0), &moment), None);
    // Far centers are held at ten metres.
    let far = aerodynamic_center(50 * ONE, &force, &vec3(50_000 * ONE, 0, 0));
    assert_eq!(far, Some(vec3(0, 0, -10 * ONE)));
}

// --- Waypoints ---------------------------------------------------------------

fn slab(cell: (i32, i32), x: i64, z: i64, elevation: i64) -> SlabSite {
    SlabSite { cell, x, z, elevation }
}

#[test]
fn airports_with_two_strips_get_one_stalk() {
    let slabs = vec![
        slab((1, 0), 10 * KM, 0, 100 * ONE),
        slab((2, 0), 20 * KM, 0, 50 * ONE),
        slab((1, 0), 12 * KM, 2 * KM, 200 * ONE),
    ];
    let sites = group_slabs(&slabs);
    assert_eq!(sites, vec![slab((1, 0), 11 * KM, KM, 150 * ONE), slab((2, 0), 20 * KM, 0, 50 * ONE)]);
}

#[test]
fn labels_hide_when_near_and_fade_when_far() {
    let at = |km: i64| waypoint_label(&slab((0, 0), km * KM, 0, 0), 0, 0);
    assert_eq!(at(1), None);
    assert_eq!(at(2).map(|l| l.opacity), Some(ONE));
    assert_eq!(at(30).map(|l| l.opacity), Some(ONE));
    assert_eq!(at(75).map(|l| l.opacity), Some(ONE / 2));
    assert_eq!(at(120), None);
    assert_eq!(at(9_000_000), None);
    // 3-4-5 triangle.
    let diagonal = waypoint_label(&slab((0, 0), 3 * KM, 4 * KM, 0), 0, 0);
    assert_eq!(diagonal.map(|l| l.distance), Some(5 * KM));
}

#[test]
fn waypoints_carry_their_ident_and_distance() {
    let slabs = vec![slab((1, 0), 75 * KM, 0, 100 * ONE), slab((0, 0), 0, 0, 0)];
    let waypoints = draw_waypoint_labels(42, &slabs, 0, 0);
    assert_eq!(waypoints.len(), 1);
    let w = &waypoints[0];
    assert_eq!(w.ident, "KLYP");
    assert_eq!(w.distance, "75.0 km");
    assert_eq!(w.base, vec3(75 * KM, 102 * ONE, 0));
    assert_eq!(w.tip, vec3(75 * KM, 1100 * ONE, 0));
    assert_eq!(w.text_alpha, 127);
    assert_eq!(w.stalk_alpha, 90);
    assert_eq!(distance_text(2_345_678_901_234), "2.3 km");
}

#[test]
fn labels_are_placed_in_the_window() {
    assert!(!off_screen(0, 0, 640 * ONE, 360 * ONE));
    assert!(off_screen(-201 * ONE, 0, 640 * ONE, 360 * ONE));
    assert!(off_screen(0, 461 * ONE, 640 * ONE, 360 * ONE));
    // A 640 px canvas at double size in a 1400 px window.
    assert_eq!(to_window(100 * ONE, 2 * ONE, 1400 * ONE, 640 * ONE), 260 * ONE as i128);
    let lines = label_lines((100 * ONE, 200 * ONE), (40 * ONE, 14 * ONE), (60 * ONE, 12 * ONE));
    assert_eq!(lines.0, (80 * ONE as i128, 166 * ONE as i128));
    assert_eq!(lines.1, (70 * ONE as i128, 182 * ONE as i128));
}

#[test]
fn turned_air_changes_force_and_moment() {
    let newtons = |y: i128| Wide3 { x: 0, y: y * ONE as i128, z: 0 };
    let sample = |base: i128, turned: i128, z: i64| Sample {
        base: newtons(base),
        turned: newtons(turned),
        arm: vec3(0, 0, z * ONE),
    };
    // The wing gains 200 N a metre ahead, the tail 50 N five metres behind.
    let (force, moment) = load_change(&vec![sample(900, 1100, 1), sample(-100, -50, -5)]);
    assert_eq!(force, newtons(250));
    assert_eq!(moment, Wide3 { x: 50 * ONE as i128, y: 0, z: 0 });
    // Steady air changes nothing, nor does an aircraft without surfaces.
    let none = (newtons(0), newtons(0));
    assert_eq!(load_change(&vec![sample(900, 900, 1), sample(-100, -100, -5)]), none);
    assert_eq!(load_change(&vec![]), none);
}
