use flight_sim::camera::CameraMode;
use flight_sim::fixed::{blend, clamp, floor_div, scale, sqrt_floor};
use flight_sim::fog::FogSettings;
use flight_sim::hud::{populate_debug_hud, update_fps, DebugHud, HudEntry, PlaneReadout};
use flight_sim::order::sorted_order;
use flight_sim::physics::aero_model::{effective_aspect, ground_effect_factor, polar};
use flight_sim::physics::aero_surface::AeroSurface;
use flight_sim::physics::aircraft_physics::{
    isa_density_base, local_density, AircraftRoot, EngineState,
};
use flight_sim::physics::flight_config::FlightModelConfig;
use flight_sim::plane::PlaneState;
use flight_sim::sky::DayNightCycle;
use flight_sim::text::{format_game_time, push_number, push_padded, push_rounded};
use flight_sim::ui::handbook::{draw_handbook, HandbookTab, Tab};
use flight_sim::ui::instrument_panel::{
    airspeed_bands, baro_reading, dial_segment, draw_airspeed_tape, draw_altitude_tape,
    draw_baro_readout, draw_engine_gauge, draw_heading_compass, draw_instrument_panel,
    draw_vspeed_tape, ground_polygon, isa_temperature, pitch_ladder, vspeed_marks, wrap_360, Band,
    BandColour, FlightReading, RimPoint, Tick,
};
use flight_sim::ui::levers::{
    draw_flap_lever, draw_throttle_mixture_levers, draw_trim_lever, handle_position, lever, Rail,
};
use flight_sim::ui::tuning::{
    draw_menu, get_knob, knob_limits, mass_readout, slider, surface_limits, toggle_menu,
    total_mass_text, Axis, Knob, MenuAction, SurfaceId, SurfaceKnob,
};
use flight_sim::ui::weather::{draw_weather, WeatherInput};
use flight_sim::vector::vec3;

const ONE: i64 = 1_000_000_000;

// --- Numbers -------------------------------------------------------------------

#[test]
fn division_rounds_down() {
    assert_eq!(floor_div(7, 2), 3);
    assert_eq!(floor_div(-7, 2), -4);
    assert_eq!(floor_div(-8, 2), -4);
    assert_eq!(scale(ONE / 2, -ONE / 2), -250_000_000);
    assert_eq!(scale(1, -1), -1);
}

#[test]
fn roots_round_down() {
    assert_eq!(sqrt_floor(0), 0);
    assert_eq!(sqrt_floor(15), 3);
    assert_eq!(sqrt_floor(16), 4);
    assert_eq!(sqrt_floor(1_000_000_000_000_000_000_000_000_000_000_000_000), 1_000_000_000_000_000_000);
}

#[test]
fn blending_reaches_both_ends() {
    assert_eq!(clamp(7, 0, 5), 5);
    assert_eq!(clamp(-7, 0, 5), 0);
    assert_eq!(blend(10, 20, 0), 10);
    assert_eq!(blend(10, 20, ONE), 20);
    assert_eq!(blend(10, 20, ONE / 2), 15);
    assert_eq!(blend(20, 10, ONE / 2), 15);
    assert_eq!(blend(i64::MIN, i64::MAX, ONE), i64::MAX);
}

#[test]
fn equal_keys_keep_their_order() {
    assert_eq!(sorted_order(&vec![3, 1, 2, 1]), vec![1, 3, 2, 0]);
    assert!(sorted_order(&Vec::new()).is_empty());
}

#[test]
fn numbers_are_written_in_decimal() {
    let mut s = String::from("n=");
    push_number(&mut s, 340_282_366_920_938_463_463_374_607_431_768_211_455);
    assert_eq!(s, "n=340282366920938463463374607431768211455");
    let mut p = String::new();
    push_padded(&mut p, 7, 3);
    push_padded(&mut p, 12345, 3);
    assert_eq!(p, "007345");
}

#[test]
fn decimals_round_as_the_formatter_does() {
    // The fixed-point text agrees with the formatter on values that are exact
    // in binary.
    for v in [0.0f64, 0.5, 1.5, 2.5, -0.5, -1.5, 12.25, 0.125, -7.75, 1234.0625, -0.0625] {
        let nano = (v * 1e9) as i128;
        for places in 0..4u32 {
            let mut s = String::new();
            push_rounded(&mut s, nano, places);
            assert_eq!(s, format!("{:.*}", places as usize, v));
        }
    }
}

#[test]
fn clock_shows_hours_and_minutes() {
    assert_eq!(format_game_time(0), "00:00");
    assert_eq!(format_game_time(350_000_000), "08:24");
    assert_eq!(format_game_time(500_000_000), "12:00");
    assert_eq!(format_game_time(999_999_999), "23:59");
    assert_eq!(format_game_time(ONE), "00:00");
    assert_eq!(format_game_time(-ONE / 4), "18:00");
}

// --- Tapes -----------------------------------------------------------------------

#[test]
fn altitude_tape_marks_every_fifty_feet() {
    let marks = draw_altitude_tape(1000 * ONE);
    assert_eq!(marks.len(), 9);
    assert_eq!(marks[0], Tick { value: 800, y: 70 * ONE, major: true });
    assert_eq!(marks[4], Tick { value: 1000, y: 0, major: true });
    assert_eq!(marks[5], Tick { value: 1050, y: -17_500_000_000, major: false });
    assert_eq!(marks[8], Tick { value: 1200, y: -70 * ONE, major: true });
    // Below sea level the marks go on.
    assert!(draw_altitude_tape(-1000 * ONE).contains(&Tick { value: -1000, y: 0, major: true }));
}

#[test]
fn airspeed_tape_starts_at_zero() {
    let marks = draw_airspeed_tape(0);
    assert_eq!(marks[0], Tick { value: 0, y: 0, major: true });
    assert_eq!(marks[1], Tick { value: 10, y: -14 * ONE, major: false });
    assert_eq!(marks.len(), 6);
    let cruising = draw_airspeed_tape(100 * ONE);
    assert_eq!(cruising.len(), 11);
    assert_eq!(cruising[0], Tick { value: 50, y: 70 * ONE, major: false });
    assert!(draw_airspeed_tape(-500 * ONE).is_empty());
}

#[test]
fn speed_bands_meet_on_the_tape() {
    let bands = airspeed_bands(100 * ONE);
    assert_eq!(bands[0], Some(Band { top: 72_800_000_000, bottom: 80 * ONE, colour: BandColour::Warn }));
    assert_eq!(bands[1], Some(Band { top: -28 * ONE, bottom: 72_800_000_000, colour: BandColour::Good }));
    assert_eq!(bands[2], Some(Band { top: -80 * ONE, bottom: -28 * ONE, colour: BandColour::Caution }));
    assert_eq!(bands[3], None);
    let fast = airspeed_bands(163 * ONE);
    assert_eq!(fast[0], None);
    assert_eq!(fast[3].map(|b| (b.bottom, b.colour)), Some((0, BandColour::Warn)));
}

#[test]
fn vertical_speed_is_held_on_its_scale() {
    assert_eq!(draw_vspeed_tape(0), 0);
    assert_eq!(draw_vspeed_tape(1000 * ONE), -35 * ONE);
    assert_eq!(draw_vspeed_tape(9000 * ONE), -70 * ONE);
    assert_eq!(draw_vspeed_tape(-9000 * ONE), 70 * ONE);
    let marks = vspeed_marks();
    assert_eq!(marks[0], (-20, 70 * ONE));
    assert_eq!(marks[4], (20, -70 * ONE));
}

// --- Horizon -----------------------------------------------------------------------

#[test]
fn ladder_moves_with_the_pitch() {
    let level = pitch_ladder(0);
    assert_eq!(level.len(), 13);
    assert_eq!((level[6].angle, level[6].y, level[6].major, level[6].labelled), (0, 0, true, false));
    assert_eq!((level[9].angle, level[9].y, level[9].major, level[9].labelled), (30, 24 * ONE, true, true));
    let nose_up = pitch_ladder(90 * ONE);
    assert_eq!((nose_up[0].angle, nose_up[0].y), (-30, -96 * ONE));
}

#[test]
fn ground_is_the_lower_part_of_the_disc() {
    let rim = vec![
        RimPoint { x: 10, y: 0, level: 0 },
        RimPoint { x: 0, y: 10, level: 10 },
        RimPoint { x: -10, y: 0, level: 0 },
        RimPoint { x: 0, y: -10, level: -10 },
    ];
    // The horizon half way down: two crossings around the lowest point.
    assert_eq!(ground_polygon(&rim, 5), vec![(5, 5), (0, 10), (-5, 5)]);
    assert!(ground_polygon(&rim, 10).is_empty());
    assert_eq!(ground_polygon(&rim, -11), vec![(10, 0), (0, 10), (-10, 0), (0, -10)]);
}

// --- Compass and engine -----------------------------------------------------------

#[test]
fn bearings_stay_within_a_turn() {
    assert_eq!(wrap_360(-90 * ONE), 270 * ONE);
    assert_eq!(wrap_360(360 * ONE), 0);
    assert_eq!(wrap_360(725 * ONE), 5 * ONE);
    let marks = draw_heading_compass(90 * ONE);
    assert_eq!(marks.len(), 12);
    assert_eq!((marks[0].angle, marks[0].letter), (-180 * ONE, Some('N')));
    assert_eq!((marks[3].angle, marks[3].letter), (-90 * ONE, Some('E')));
    assert_eq!((marks[4].angle, marks[4].letter), (-60 * ONE, None));
    assert_eq!(marks[6].letter, Some('S'));
    assert_eq!(marks[9].letter, Some('W'));
}

#[test]
fn tachometer_ends_at_the_redline() {
    let g = draw_engine_gauge(45 * ONE, 45 * ONE);
    assert_eq!(g.needle, ONE);
    // 2700 rpm: a tick at each 200 up to 2600.
    assert_eq!(g.ticks.len(), 14);
    assert_eq!((g.ticks[0].share, g.ticks[0].major), (0, true));
    assert_eq!((g.ticks[1].share, g.ticks[1].major), (74_074_074, false));
    assert!(g.ticks[5].major);
    assert_eq!(g.label, "2700 RPM");
    assert_eq!(draw_engine_gauge(90 * ONE, 45 * ONE).needle, ONE);
    assert_eq!(draw_engine_gauge(-ONE, 45 * ONE).needle, 0);
    // A redline of nothing leaves one tick, and the label still tells the speed.
    let flat = draw_engine_gauge(2 * ONE, 0);
    assert_eq!((flat.needle, flat.ticks.len(), flat.label.as_str()), (ONE, 1, "120 RPM"));
    assert_eq!(draw_engine_gauge(0, 0).needle, 0);
    let backwards = draw_engine_gauge(2 * ONE, -ONE);
    assert_eq!((backwards.needle, backwards.ticks.len()), (0, 0));
    assert_eq!(backwards.label, "120 RPM");
    assert_eq!(dial_segment(0), (0, 16_666_666, false));
    assert!(!dial_segment(54).2);
    assert_eq!(dial_segment(59), (983_333_333, ONE, true));
}

#[test]
fn readout_shows_the_density_that_is_flown_in() {
    // 3000 m: 268.65 K, and air of 0.742 of the density at sea level.
    let (kelvin, ratio) = (isa_temperature(3000 * ONE), 742_000_000);
    assert_eq!(kelvin, 268_650_000_000);
    let share = (ratio as i128 * kelvin as i128 / 288_150_000_000) as i64;
    let (density, _) = baro_reading(1_225_000_000, share, kelvin);
    let flown = local_density(1_225_000_000, ratio) as i64;
    assert_eq!(flown, 908_950_000);
    assert!((density - flown).abs() <= 20);
    // The base of the flight model's ratio is the temperature's share.
    let warmth = (kelvin as i128 * ONE as i128 / 288_150_000_000) as i64;
    assert!((isa_density_base(3000 * ONE) - warmth).abs() <= 10_000);
    let (sea, pressure) = baro_reading(1_225_000_000, ONE, isa_temperature(0));
    assert!((sea - 1_225_000_000).abs() <= 20);
    assert_eq!(pressure, 29_920_943_966);
}

#[test]
fn panel_hides_for_the_free_camera() {
    let reading = FlightReading {
        speed: 50 * ONE,
        altitude: 100 * ONE,
        climb: 5 * ONE,
        bearing: 180 * ONE,
        pitch: 10 * ONE,
        roll: -20 * ONE,
        engine_rps: 40 * ONE,
        prop_max_rps: 45 * ONE,
    };
    assert!(draw_instrument_panel(CameraMode::Free, Some(reading)).is_none());
    assert!(draw_instrument_panel(CameraMode::Orbit, None).is_none());
    let p = draw_instrument_panel(CameraMode::Orbit, Some(reading)).expect("shown");
    assert_eq!(p.altitude_label, "328");
    assert_eq!(p.airspeed_label, "97");
    assert_eq!(p.vspeed_label, "984");
    assert_eq!(p.heading_label, "270°");
    assert_eq!(p.pitch_shift, 8 * ONE);
    assert_eq!(p.roll, -20 * ONE);
    assert_eq!(p.engine.label, "2400 RPM");
    assert_eq!(p.vspeed_y, -34_448_820_000);
}

#[test]
fn standard_day_reads_thirty_inches() {
    assert_eq!(isa_temperature(0), 288_150_000_000);
    assert_eq!(isa_temperature(1000 * ONE), 281_650_000_000);
    assert_eq!(isa_temperature(100_000 * ONE), ONE);
    let (density, pressure) = baro_reading(1_225_000_000, ONE, 288_150_000_000);
    assert_eq!(density, 1_225_000_000);
    assert_eq!(draw_baro_readout(density, pressure), (String::from("29.92 inHg"), String::from("ρ 1.225 kg/m³")));
}

// --- Levers ---------------------------------------------------------------------------

#[test]
fn lever_follows_the_pointer() {
    let rail = Rail { bottom: 0, top: ONE, step: None };
    assert_eq!(lever(&rail, 5, 0, None).value, 5);
    assert_eq!(lever(&rail, 0, 0, Some(0)).value, ONE);
    assert_eq!(lever(&rail, 0, 0, Some(45 * ONE)).value, ONE / 2);
    assert_eq!(lever(&rail, 0, 0, Some(900 * ONE)).value, 0);
    assert_eq!(lever(&rail, 0, 0, Some(-900 * ONE)).share, ONE);
    assert_eq!(handle_position(0, ONE), 6 * ONE as i128);
    assert_eq!(handle_position(0, 0), 84 * ONE as i128);
}

#[test]
fn throttle_and_mixture_move_apart() {
    let mut root = AircraftRoot::default();
    let shown = draw_throttle_mixture_levers(&mut root, 0, Some(45 * ONE), None);
    assert_eq!(root.throttle_percent, ONE / 2);
    assert_eq!(root.mixture, ONE);
    assert_eq!(shown.0 .1, "50%");
    assert_eq!(shown.1 .1, "100%");
}

#[test]
fn flap_lever_clicks_into_notches() {
    let mut root = AircraftRoot::default();
    // A third of the way down is ten degrees.
    let shown = draw_flap_lever(&mut root, 0, Some(32 * ONE));
    assert_eq!(root.flap_target, 174_532_925);
    assert_eq!(shown.1, "10°");
    draw_flap_lever(&mut root, 0, Some(90 * ONE));
    assert_eq!(root.flap_target, 523_598_776);
    let kept = draw_flap_lever(&mut root, 0, None);
    assert_eq!(root.flap_target, 523_598_776);
    assert_eq!(kept.1, "30°");
    draw_flap_lever(&mut root, 0, Some(0));
    assert_eq!(root.flap_target, 0);
}

#[test]
fn trim_lever_stays_within_ten_degrees() {
    let mut trim = ONE;
    let shown = draw_trim_lever(&mut trim, 0, None);
    assert_eq!(trim, 174_532_925);
    assert_eq!(shown, (ONE, String::from("+10°")));
    let down = draw_trim_lever(&mut trim, 0, Some(68 * ONE));
    assert_eq!(trim, -87_266_463);
    assert_eq!(down.1, "-5°");
    let level = draw_trim_lever(&mut trim, 0, Some(45 * ONE));
    assert_eq!(trim, 0);
    assert_eq!(level.1, "+0°");
}

// --- Tuning ------------------------------------------------------------------------------

#[test]
fn sliders_are_held_in_range() {
    let mut config = FlightModelConfig::default();
    assert_eq!(knob_limits(Knob::ThrustMax), (0, 20_000 * ONE));
    assert_eq!(surface_limits(SurfaceKnob::SkinFriction), (100_000_000, 200_000_000));
    slider(&mut config, Knob::ThrustMax, Some(50_000 * ONE));
    assert_eq!(config.thrust_max, 20_000 * ONE);
    slider(&mut config, Knob::ServoTau, Some(0));
    assert_eq!(config.servo_tau, 10_000_000);
    slider(&mut config, Knob::Occupants, Some(9));
    assert_eq!(config.cargo.passengers, 4);
    // Drawing alone brings a value into the slider's range.
    assert_eq!(config.wing.skin_friction, 20_000_000);
    slider(&mut config, Knob::Surface(SurfaceId::Wing, SurfaceKnob::SkinFriction), None);
    assert_eq!(config.wing.skin_friction, 100_000_000);
    assert_eq!(get_knob(&config, Knob::Surface(SurfaceId::Wing, SurfaceKnob::SkinFriction)), 100_000_000);
    assert_eq!(config.aileron, FlightModelConfig::default().aileron);
}

#[test]
fn wild_drags_leave_a_model_that_flies() {
    for wild in [i64::MIN, i64::MAX] {
        let mut config = FlightModelConfig::default();
        let drag = |knob: Knob| MenuAction::Slide(knob, Some(wild));
        let actions = vec![
            drag(Knob::Surface(SurfaceId::Wing, SurfaceKnob::StallAngleHigh)),
            drag(Knob::Surface(SurfaceId::Wing, SurfaceKnob::StallAngleLow)),
            drag(Knob::Surface(SurfaceId::Wing, SurfaceKnob::ZeroLiftAoa)),
            drag(Knob::Surface(SurfaceId::Wing, SurfaceKnob::AspectRatio)),
            drag(Knob::Surface(SurfaceId::Wing, SurfaceKnob::SkinFriction)),
            drag(Knob::GroundEffectStrength),
        ];
        draw_menu(true, &mut config, &actions);
        let wing = AeroSurface::wing(config.wing);
        let factor = ground_effect_factor(config.ground_effect_strength, 11 * ONE, ONE);
        let aspect = effective_aspect(wing.config.aspect_ratio, factor);
        let p = polar(&wing, ONE, aspect);
        let square = 1_570_796_327;
        assert!((p.stall_high - p.zero_lift).abs() < square);
        assert!((p.stall_low - p.zero_lift).abs() < square);
    }
}

#[test]
fn every_axis_has_its_slider() {
    let mut config = FlightModelConfig::default();
    slider(&mut config, Knob::CenterOfMass(Axis::X), Some(ONE));
    slider(&mut config, Knob::CenterOfMass(Axis::Y), Some(2 * ONE));
    slider(&mut config, Knob::CenterOfMass(Axis::Z), Some(-4 * ONE));
    assert_eq!(config.center_of_mass, vec3(ONE, 2 * ONE, -4 * ONE));
    assert_eq!(get_knob(&config, Knob::CenterOfMass(Axis::Z)), -4 * ONE);
}

#[test]
fn menu_runs_its_actions_in_order() {
    let start = FlightModelConfig::default();
    let mut config = start;
    let actions = vec![
        MenuAction::Slide(Knob::Mass, Some(900 * ONE)),
        MenuAction::Reset,
        MenuAction::Slide(Knob::Gravity, Some(ONE)),
    ];
    draw_menu(false, &mut config, &actions);
    assert_eq!(config, start);
    draw_menu(true, &mut config, &actions);
    assert_eq!(config.mass, start.mass);
    assert_eq!(config.gravity, ONE);
    let mut visible = false;
    toggle_menu(&mut visible, true);
    toggle_menu(&mut visible, false);
    assert!(visible);
}

#[test]
fn load_is_read_out() {
    assert_eq!(total_mass_text(909_400_000_000), "Total mass: 909 kg");
    let lines = mass_readout(909_600_000_000, vec3(0, 120_000_000, -345_000_000), vec3(ONE, 2 * ONE, 3 * ONE));
    assert_eq!(lines.0, "Loaded mass: 910 kg");
    assert_eq!(lines.1, "Loaded CoM (m): 0.00, 0.12, -0.34");
    assert_eq!(lines.2, "Loaded inertia: 1 / 2 / 3");
}

// --- Weather and handbook ------------------------------------------------------------------

fn untouched() -> WeatherInput {
    WeatherInput { time: None, play_pause: false, fog: false, visibility: None, glow: None }
}

#[test]
fn weather_window_moves_the_clock() {
    let mut sky = DayNightCycle::default();
    let mut fog = FogSettings::default();
    let mut input = untouched();
    input.time = Some(2 * ONE);
    assert!(draw_weather(false, &mut sky, &mut fog, &input).is_none());
    assert_eq!(sky, DayNightCycle::default());
    let view = draw_weather(true, &mut sky, &mut fog, &input).expect("open");
    assert_eq!(view.clock, "Clock: 08:24");
    assert_eq!(view.button, "⏸  Pause");
    assert_eq!(sky.time_of_day, ONE);
    input = untouched();
    input.play_pause = true;
    draw_weather(true, &mut sky, &mut fog, &input);
    assert_eq!(sky.speed, 0);
    let paused = draw_weather(true, &mut sky, &mut fog, &input).expect("open");
    assert_eq!(paused.button, "▶  Play");
    assert_eq!(sky.speed, 5_000_000);
}

#[test]
fn weather_window_sets_the_fog() {
    let mut sky = DayNightCycle::default();
    let mut fog = FogSettings::default();
    let mut input = untouched();
    input.visibility = Some(1);
    input.glow = Some(100 * ONE);
    draw_weather(true, &mut sky, &mut fog, &input);
    assert_eq!(fog.visibility, 200 * ONE);
    assert_eq!(fog.directional_light_exponent, 50 * ONE);
    // Switched off, the sliders do not answer.
    input.fog = true;
    input.visibility = Some(5_000 * ONE);
    draw_weather(true, &mut sky, &mut fog, &input);
    assert!(!fog.enabled);
    assert_eq!(fog.visibility, 200 * ONE);
}

#[test]
fn handbook_turns_to_the_clicked_tab() {
    let labels: Vec<&str> = Tab::all().iter().map(|t| t.label()).collect();
    assert_eq!(
        labels,
        vec!["Overview", "Controls", "Engine", "Flight", "HUD", "Airports", "Day / Night", "Terrain"]
    );
    let mut open = false;
    let mut state = HandbookTab::default();
    assert_eq!(draw_handbook(false, &mut open, &mut state, Some(Tab::Engine)), None);
    assert_eq!(state.tab, Tab::Overview);
    assert_eq!(draw_handbook(true, &mut open, &mut state, Some(Tab::Engine)), Some(Tab::Engine));
    assert_eq!(draw_handbook(false, &mut open, &mut state, None), Some(Tab::Engine));
    assert_eq!(draw_handbook(true, &mut open, &mut state, None), None);
}

// --- Overlay ----------------------------------------------------------------------------------

fn readout(crashed: bool) -> PlaneReadout {
    let mut root = AircraftRoot::default();
    root.engine_state = EngineState::Cranking;
    root.engine_rps = 5 * ONE;
    root.flap_setting = 174_532_926;
    PlaneReadout {
        altitude: 123_450_000_000,
        state: PlaneState {
            speed: 50 * ONE,
            thrust: 1_500 * ONE,
            drag: 700 * ONE,
            drag_surface: 600 * ONE,
            drag_fuselage: 100 * ONE,
            lift_pct: 990_000_000,
            on_ground: false,
            braking: true,
            crashed,
        },
        root,
    }
}

#[test]
fn overlay_is_made_anew_each_frame() {
    let mut hud = DebugHud { entries: vec![HudEntry { label: "OLD", value: String::from("stale") }] };
    populate_debug_hud(&mut hud, CameraMode::Free, true, Some(vec3(ONE, -ONE, 1_250_000_000)), None);
    let lines: Vec<(&str, &str)> = hud.entries.iter().map(|e| (e.label, e.value.as_str())).collect();
    assert_eq!(lines, vec![("CAM", "FREE"), ("FOG", "ON\t [1]"), ("POS", "X=1.0  Y=-1.0  Z=1.2")]);
}

#[test]
fn overlay_reads_out_the_aircraft() {
    let mut hud = DebugHud { entries: Vec::new() };
    populate_debug_hud(&mut hud, CameraMode::Orbit, false, None, Some(readout(false)));
    let lines: Vec<(&str, &str)> = hud.entries.iter().map(|e| (e.label, e.value.as_str())).collect();
    assert_eq!(
        lines,
        vec![
            ("CAM", "ORBIT"),
            ("FOG", "OFF \t[1]"),
            ("SPD", "50.0 m/s"),
            ("KTS", "97.2 kt"),
            ("ALT", "123.4 m"),
            ("GND", "AIRBORNE"),
            ("ENGINE", "CRANKING..."),
            ("MIXTURE", "100%\t[K/L]"),
            ("THROTTLE", "100%\t[-/+]"),
            ("FLAPS", "10     \t[</>]"),
            ("BRK", "ON  \t[B]"),
            ("RPM", "300"),
            ("LIFT", "99%"),
            ("THRUST", "1500 N"),
            ("DRAG", "700 N"),
            ("  SURFACE", "600 N"),
            ("  FUSELAGE", "100 N"),
        ]
    );
    populate_debug_hud(&mut hud, CameraMode::Orbit, false, None, Some(readout(true)));
    assert!(hud.entries.iter().any(|e| e.label == "STATUS" && e.value == "CRASHED"));
}

#[test]
fn frame_counter_keeps_its_last_measurement() {
    let mut text = String::from("FPS: --");
    update_fps(&mut text, None);
    assert_eq!(text, "FPS: --");
    update_fps(&mut text, Some(59_700_000_000));
    assert_eq!(text, "FPS: 60");
}
