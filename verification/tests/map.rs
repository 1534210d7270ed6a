use flight_sim::map::render::{
    bake_rows, half_span, height_texel, texel_center, to_u8, wiped, world_to_screen, TEX,
};
use flight_sim::map::state::{
    advance_map, choose_layer, clear_map, click_map, direct_to, gesture_map, pick_airport,
    toggle_map, track_plane, MapGesture, MapIconSettings, MapLayer, MapState,
};
use flight_sim::map::trail::{log_breadcrumbs, Breadcrumb, BreadcrumbTrail, TRAIL_MAX};
use flight_sim::map::window::{
    airport_info, background, click_airport, draw_airport, draw_camera, draw_plane, info_shown,
    WIDGET,
};
use flight_sim::terrain::runway::RunwayInstance;

const ONE: i64 = 1_000_000_000;
const KM: i64 = 1_000_000_000_000;

fn airport(x: i64, z: i64) -> RunwayInstance {
    RunwayInstance { x, z, heading: 0, elevation: 123 * ONE, cell: (1, 0) }
}

// --- Trail -------------------------------------------------------------------

#[test]
fn trail_samples_every_three_seconds() {
    let mut trail = BreadcrumbTrail::default();
    let here = Breadcrumb { pos: (1, 2), heading: (3, 4) };
    log_breadcrumbs(&mut trail, 2_900_000_000, Some(here));
    assert!(trail.crumbs.is_empty());
    assert_eq!(trail.elapsed, 2_900_000_000);
    log_breadcrumbs(&mut trail, 200_000_000, Some(here));
    assert_eq!(trail.crumbs.len(), 1);
    assert_eq!(trail.crumbs[0], here);
    assert_eq!(trail.elapsed, 100_000_000);
    // Without a plane nothing is logged.
    log_breadcrumbs(&mut trail, 3_000_000_000, None);
    assert_eq!(trail.crumbs.len(), 1);
}

#[test]
fn trail_forgets_the_oldest() {
    let mut trail = BreadcrumbTrail::default();
    for i in 0..(TRAIL_MAX as i64 + 5) {
        log_breadcrumbs(&mut trail, 3_000_000_000, Some(Breadcrumb { pos: (i, 0), heading: (0, 0) }));
    }
    assert_eq!(trail.crumbs.len(), TRAIL_MAX);
    assert_eq!(trail.crumbs[0].pos.0, 5);
    assert_eq!(trail.crumbs[TRAIL_MAX - 1].pos.0, TRAIL_MAX as i64 + 4);
}

// --- Background ----------------------------------------------------------------

#[test]
fn texels_tile_the_view() {
    assert_eq!(half_span(250 * ONE), 32 * KM);
    assert_eq!(texel_center(0, 250 * ONE, 0), -31_875 * ONE);
    assert_eq!(texel_center(0, 250 * ONE, TEX - 1), 31_875 * ONE);
}

#[test]
fn rows_are_filled_in_place() {
    let mut data = wiped();
    assert_eq!(data.len(), 256 * 256 * 4);
    let texels = vec![[1, 2, 3, 4]; 256];
    bake_rows(&mut data, 1, 2, &texels);
    assert_eq!(&data[..4], &[0, 0, 0, 0]);
    assert_eq!(&data[1024..1028], &[1, 2, 3, 4]);
    assert_eq!(&data[2044..2048], &[1, 2, 3, 4]);
    assert_eq!(&data[2048..2052], &[0, 0, 0, 0]);
}

#[test]
fn heights_have_their_colour() {
    assert_eq!(to_u8(0), 0);
    assert_eq!(to_u8(ONE), 255);
    assert_eq!(to_u8(2 * ONE), 255);
    assert_eq!(to_u8(-ONE), 0);
    assert_eq!(to_u8(ONE / 2), 128);
    assert_eq!(height_texel(0), [38, 38, 38, 255]);
    assert_eq!(height_texel(450 * ONE), [242, 242, 242, 255]);
    // The deepest water.
    assert_eq!(height_texel(-300 * ONE), [13, 38, 77, 255]);
    assert_eq!(height_texel(-1000 * ONE), [13, 38, 77, 255]);
}

// --- State -----------------------------------------------------------------------

#[test]
fn map_opens_onto_the_plane() {
    let mut state = MapState::default();
    assert!(!state.open);
    state.follow = false;
    toggle_map(true, &mut state);
    assert!(state.open && state.follow);
    state.follow = false;
    toggle_map(true, &mut state);
    assert!(!state.open && !state.follow);
}

#[test]
fn a_fresh_view_fills_in_26_frames() {
    let mut state = MapState::default();
    toggle_map(true, &mut state);
    let first = advance_map(&mut state, Some((5 * KM, 6 * KM)), true, true);
    assert!(first.wipe);
    assert_eq!((first.start, first.end), (0, 10));
    assert_eq!(state.pass_view.x, 5 * KM);
    let mut frames = 1;
    while !state.baked {
        let plan = advance_map(&mut state, Some((5 * KM, 6 * KM)), false, true);
        assert!(!plan.wipe);
        frames += 1;
    }
    assert_eq!(frames, 26);
    // Settled: nothing more to fill.
    let idle = advance_map(&mut state, Some((5 * KM, 6 * KM)), false, true);
    assert_eq!(idle.start, idle.end);
    // Half a texel further the fill starts anew, but not during a gesture.
    state.interacting = true;
    let held = advance_map(&mut state, Some((6 * KM, 6 * KM)), false, true);
    assert!(!held.wipe);
    state.interacting = false;
    let anew = advance_map(&mut state, Some((6 * KM, 6 * KM)), false, true);
    assert!(anew.wipe);
}

#[test]
fn closed_map_does_nothing() {
    let mut state = MapState::default();
    let plan = advance_map(&mut state, Some((KM, KM)), true, true);
    assert!(!plan.wipe);
    assert_eq!(state.view.x, 0);
}

#[test]
fn gestures_pan_and_zoom() {
    let mut state = MapState::default();
    toggle_map(true, &mut state);
    let drag = MapGesture { drag: Some((10 * ONE, -20 * ONE)), zoom: None };
    gesture_map(&mut state, &drag, 320);
    // 64 km over 320 px are 200 m to the pixel.
    assert_eq!((state.view.x, state.view.z), (-2 * KM, 4 * KM));
    assert!(!state.follow && state.interacting);
    track_plane(&mut state);
    assert!(state.follow);
    let zoom = MapGesture { drag: None, zoom: Some(2 * ONE) };
    gesture_map(&mut state, &zoom, 320);
    assert_eq!(state.view.world_per_texel, 500 * ONE);
    let far = MapGesture { drag: None, zoom: Some(1000 * ONE) };
    gesture_map(&mut state, &far, 320);
    assert_eq!(state.view.world_per_texel, 4000 * ONE);
    gesture_map(&mut state, &MapGesture { drag: None, zoom: Some(1) }, 320);
    assert_eq!(state.view.world_per_texel, 20 * ONE);
    gesture_map(&mut state, &MapGesture { drag: None, zoom: None }, 320);
    assert!(!state.interacting);
}

#[test]
fn map_pans_as_far_as_numbers_go() {
    let mut state = MapState::default();
    toggle_map(true, &mut state);
    let drag = MapGesture { drag: Some((-10_000_000 * ONE, 0)), zoom: None };
    gesture_map(&mut state, &drag, 320);
    // Two million kilometres east at 200 m to the pixel.
    assert_eq!(state.view.x, 2_000_000 * KM);
    assert!(state.view_changed());
    for _ in 0..10 {
        gesture_map(&mut state, &drag, 320);
    }
    assert_eq!(state.view.x, 9_000_000 * KM);
}

#[test]
fn clicks_select_the_nearest_airport() {
    assert_eq!(pick_airport(&vec![20 * ONE, 5 * ONE, 5 * ONE]), Some(1));
    assert_eq!(pick_airport(&vec![12 * ONE]), None);
    assert_eq!(pick_airport(&Vec::new()), None);
    let mut state = MapState::default();
    let airports = vec![airport(KM, 0), airport(2 * KM, 0)];
    click_map(&mut state, &airports, &vec![11 * ONE, 3 * ONE]);
    assert_eq!(state.selected, Some(airports[1]));
    direct_to(&mut state);
    assert_eq!(state.waypoint, Some(airports[1]));
    click_map(&mut state, &airports, &vec![50 * ONE, 50 * ONE]);
    assert_eq!(state.selected, None);
    // Nothing selected: the course stays.
    direct_to(&mut state);
    assert_eq!(state.waypoint, Some(airports[1]));
    clear_map(&mut state);
    assert_eq!(state.waypoint, None);
}

#[test]
fn layers_have_names() {
    let names: Vec<&str> = MapLayer::all().iter().map(|l| l.name()).collect();
    assert_eq!(names, vec!["Biome", "Height", "Category"]);
    let mut state = MapState::default();
    choose_layer(&mut state, MapLayer::Height);
    assert_eq!(state.view.layer, MapLayer::Height);
}

// --- Window ------------------------------------------------------------------------

#[test]
fn settled_background_fills_its_widget() {
    let mut state = MapState::default();
    assert_eq!(background(&state, 0, 0), None);
    state.baked = true;
    state.baked_view = state.view;
    let r = background(&state, 10 * ONE, 20 * ONE).expect("filled");
    assert_eq!((r.left, r.right), (10 * ONE, 10 * ONE + WIDGET));
    assert_eq!((r.top, r.bottom), (20 * ONE, 20 * ONE + WIDGET));
    // A pan slides it.
    state.view.x = 32 * KM;
    let moved = background(&state, 0, 0).expect("filled");
    assert_eq!((moved.left, moved.right), (-WIDGET / 2, WIDGET / 2));
    assert_eq!(world_to_screen(0, 0, 32 * KM, 0, WIDGET), WIDGET / 2);
}

#[test]
fn pointer_finds_airports_on_screen() {
    let mut state = MapState::default();
    let airports = vec![airport(16 * KM, 0), airport(0, 0)];
    // The first appears three quarters across the widget.
    click_airport(&mut state, &airports, 0, 0, 260 * ONE, 170 * ONE);
    assert_eq!(state.selected, Some(airports[0]));
    click_airport(&mut state, &airports, 0, 0, 170 * ONE, 181 * ONE);
    assert_eq!(state.selected, Some(airports[1]));
    click_airport(&mut state, &airports, 0, 0, 170 * ONE, 183 * ONE);
    assert_eq!(state.selected, None);
    assert!(info_shown((0, 0), 0, 0));
    assert!(!info_shown((WIDGET + 1, 0), 0, 0));
}

#[test]
fn airports_tell_about_themselves() {
    let info = airport_info(42, &airport(1_234_400_000_000, -7 * KM));
    assert_eq!(info.ident, "KLYP");
    assert_eq!(info.coords, "Coords: 1234, -7000");
    assert_eq!(info.elevation, "Elevation: 123 m");
    assert_eq!(info.runway, "Rwy 18/36  2000 m");
    assert_eq!(info.direct, "Direct To KLYP");
}

#[test]
fn markers_point_along_the_facing() {
    let icons = MapIconSettings::default();
    let c = (100 * ONE, 100 * ONE);
    let m = draw_plane(c, (0, -ONE), &icons);
    let px = |x: i64, y: i64| (x as i128 * ONE as i128, y as i128 * ONE as i128);
    assert_eq!(m.corners, [px(104, 93), px(96, 93), px(96, 107), px(104, 107)]);
    assert_eq!(m.nose, px(100, 87));
    let cam = draw_camera(c, (ONE, 0), &icons);
    assert_eq!(cam.triangle, [px(108, 100), px(96, 105), px(96, 95)]);
    assert_eq!(cam.wedge, [px(122, 111), px(122, 89)]);
    let state = MapState::default();
    let strip = draw_airport(&airport(0, 0), 0, ONE, &state.view, 0, 0);
    assert_eq!(strip.middle, (170 * ONE, 170 * ONE));
    assert_eq!(strip.from, (170 * ONE, 164_687_500_000));
    assert_eq!(strip.to, (170 * ONE, 175_312_500_000));
}
