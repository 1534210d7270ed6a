use flight_sim::terrain::chunk::{
    chunk_distance_sq, lod_bands, lod_for_distance_sq, Chunk, ChunkManager, ChunkRecord,
    WorldGenerationSettings,
};
use flight_sim::terrain::generator::{
    biome_weights, ocean_factor, palette, palette_color, remap_axis, shape_raw, Biome, NoiseSample,
    WorldGenConfig,
};
use flight_sim::terrain::hash::{cell_hash, hash01, hash_u32};
use flight_sim::terrain::mesh::{flatten_colours, terrain_color};
use flight_sim::terrain::runway::{
    flatten_against, flatten_weight, ground_height, missing_sites, on_pavement, region_sites,
    runway_for_cell, runway_ident, runway_site, runways_in_region, stream_runways, RunwayInstance,
    RunwaySlab, SpawnedRunways, FAR, HALF_TURN, RUNWAY_SPACING,
};
use flight_sim::terrain::runway_fixtures::{
    animate_runway_lights, runway_fixtures, LampRole, RunwayLightClock, Shape,
};
use flight_sim::terrain::streaming::{
    apply_chunk_meshes, camera_chunk, despawn_out_of_bounds_chunks, generate_chunks,
    regenerate_terrain, update_chunk_lod, RegenState,
};
use flight_sim::terrain::world::WorldGenerator;

const ONE: i64 = 1_000_000_000;
const KM: i64 = 1_000_000_000_000;

// --- Hashing -------------------------------------------------------------

#[test]
fn hash_values_are_the_known_ones() {
    assert_eq!(hash_u32(0), 0);
    assert_eq!(hash_u32(1), 1_753_845_952);
    assert_eq!(hash_u32(0xdead_beef), 3_861_431_939);
    assert_eq!(hash01(1), 6_850_960);
}

#[test]
fn cells_hash_by_seed_and_place() {
    assert_eq!(cell_hash(42, 0, 0), 3_424_257_577);
    assert_eq!(cell_hash(42, 1, 0), 2_439_788_063);
    assert_eq!(cell_hash(42, -3, 7), 1_438_364_117);
    assert_ne!(cell_hash(43, 1, 0), cell_hash(42, 1, 0));
}

// --- Runways -------------------------------------------------------------

#[test]
fn idents_are_four_letters() {
    assert_eq!(runway_ident(42, (0, 0)), "KNUT");
    assert_eq!(runway_ident(42, (1, 0)), "KLYP");
    assert_eq!(runway_ident(42, (-3, 7)), "KVOV");
}

#[test]
fn origin_runway_points_north_at_the_origin() {
    let site = runway_site(42, 0, 0);
    assert_eq!((site.x, site.z, site.heading), (0, 0, 0));
    // The spawn strip stays even where the ground is under water.
    let strip = runway_for_cell(&site, -50 * ONE).expect("the origin strip is always there");
    assert_eq!(strip.elevation, -50 * ONE);
}

#[test]
fn points_turn_into_the_runway_frame() {
    let strip = RunwayInstance { x: KM, z: 2 * KM, heading: 0, elevation: 0, cell: (0, 0) };
    assert_eq!(strip.local_point(0, ONE, KM, 2 * KM), (0, 0));
    assert_eq!(strip.local_point(0, ONE, 4 * KM, KM), (3 * KM, -KM));
    // A quarter turn: what is east of the strip lies along it.
    assert_eq!(strip.local_point(ONE, 0, 4 * KM, 2 * KM), (0, 3 * KM));
    // A 3-4-5 heading.
    assert_eq!(strip.local_point(600_000_000, 800_000_000, KM + 500 * ONE, 2 * KM), (400 * ONE, 300 * ONE));
}

#[test]
fn other_runways_wander_within_their_cell() {
    let site = runway_site(42, 1, 0);
    assert_eq!(site.x, 3_911_430_105_566);
    assert_eq!(site.z, -1_574_350_774_289);
    assert_eq!(site.heading, 1_228_937_510);
    assert_eq!(RUNWAY_SPACING, 5 * KM);
    assert!((site.x - RUNWAY_SPACING).abs() < RUNWAY_SPACING / 2);
    assert!(site.z.abs() < RUNWAY_SPACING / 2);
}

#[test]
fn no_runway_on_water() {
    let site = runway_site(42, 1, 0);
    assert!(runway_for_cell(&site, 2_999_999_999).is_none());
    let strip = runway_for_cell(&site, 3 * ONE).expect("three metres is dry");
    assert_eq!(strip.cell, (1, 0));
    assert_eq!(strip.elevation, 3 * ONE);
}

fn strip(heading_deg: i64) -> RunwayInstance {
    RunwayInstance {
        x: 0,
        z: 0,
        heading: (heading_deg as i128 * HALF_TURN as i128 / 180) as i64,
        elevation: 100 * ONE,
        cell: (2, 3),
    }
}

#[test]
fn runway_numbers_are_reciprocal() {
    assert_eq!(strip(170).runway_numbers(), (17, 35));
    assert_eq!(strip(0).runway_numbers(), (18, 36));
    assert_eq!(strip(90).runway_numbers(), (9, 27));
}

#[test]
fn ground_is_level_on_the_apron_and_natural_far_off() {
    assert_eq!(flatten_weight(0, 0), ONE);
    assert_eq!(flatten_weight(0, 1_320 * ONE), ONE);
    assert_eq!(flatten_weight(0, 1_620 * ONE), ONE / 2);
    assert_eq!(flatten_weight(0, 1_920 * ONE), 0);
    assert_eq!(flatten_weight(0, 10 * KM), 0);
}

#[test]
fn pavement_is_the_strip_itself() {
    assert!(on_pavement(0, 1000 * ONE));
    assert!(!on_pavement(0, 1000 * ONE + 1));
    assert!(on_pavement(-22_500_000_000, 0) || on_pavement(-20_000_000_000, 0));
    assert!(!on_pavement(100 * ONE, 0));
}

#[test]
fn wheels_find_the_asphalt() {
    let runways = vec![strip(0)];
    let on = vec![(0, 0)];
    assert_eq!(flatten_against(&runways, &on, 7 * ONE), 100 * ONE);
    assert_eq!(ground_height(&runways, &on, 7 * ONE), 100_300_000_000);
    let far = vec![(50 * KM, 0)];
    assert_eq!(ground_height(&runways, &far, 7 * ONE), 7 * ONE);
    assert_eq!(ground_height(&Vec::new(), &Vec::new(), 7 * ONE), 7 * ONE);
}

#[test]
fn regions_list_their_cells_once() {
    let sites = region_sites(42, 0, 0, 0, 0);
    // The box is padded by one cell each way.
    assert_eq!(sites.len(), 9);
    let heights = vec![10 * ONE; 9];
    let runways = runways_in_region(&sites, &heights);
    assert_eq!(runways.len(), 9);
    let wet = vec![-ONE; 9];
    // Only the origin strip stands in water.
    assert_eq!(runways_in_region(&sites, &wet).len(), 1);
}

#[test]
fn runway_that_levels_a_point_is_among_its_sites() {
    // Points all over two cells, and the runway of each cell around.
    for (x, z) in [(0, 0), (2 * KM, -KM), (4 * KM, 2 * KM), (5 * KM, 3 * KM), (-3 * KM, KM)] {
        let sites = region_sites(42, x, z, x, z);
        for gx in -3..=3 {
            for gz in -3..=3 {
                let site = runway_site(42, gx, gz);
                let strip = runway_for_cell(&site, 10 * ONE).expect("dry");
                let (sin, cos) = (site.heading as f64 / 1e9).sin_cos();
                let p = strip.local_point((sin * 1e9) as i64, (cos * 1e9) as i64, x, z);
                let levels = flatten_weight(p.0, p.1) > 0;
                assert!(!levels || sites.iter().any(|s| s.cell == (gx, gz)));
            }
        }
        let mut cells: Vec<(i32, i32)> = sites.iter().map(|s| s.cell).collect();
        cells.sort();
        cells.dedup();
        assert_eq!(cells.len(), sites.len());
    }
}

#[test]
fn ground_is_natural_in_open_country_and_paved_at_the_origin() {
    let spawn = runway_for_cell(&runway_site(42, 0, 0), 12 * ONE).expect("always there");
    let other = runway_for_cell(&runway_site(42, 1, 0), 90 * ONE).expect("dry");
    let points = |x: i64, z: i64| vec![spawn.local_point(0, ONE, x, z), (FAR, FAR)];
    let runways = vec![spawn, other];
    assert_eq!(ground_height(&runways, &points(0, 0), 12 * ONE), 12_300_000_000);
    assert_eq!(ground_height(&runways, &points(0, 2 * KM), 7 * ONE), 7 * ONE);
    assert_eq!(flatten_against(&runways, &points(-KM, 0), 7 * ONE), 7 * ONE);
}

#[test]
fn runways_stream_in_and_out() {
    let mut spawned = SpawnedRunways::default();
    let camera = (0, 0);
    let sites = missing_sites(&spawned, camera, 28, 42);
    assert!(sites.iter().any(|s| s.cell == (0, 0)));
    let heights = vec![10 * ONE; sites.len()];
    let plan = stream_runways(&mut spawned, false, Some(camera), 28, &sites, &heights, &Vec::new());
    assert!(plan.despawn.is_empty());
    assert!(plan.spawn.iter().any(|r| r.cell == (0, 0)));
    let slabs: Vec<RunwaySlab> = plan
        .spawn
        .iter()
        .enumerate()
        .map(|(i, r)| RunwaySlab { entity: i as u64, cell: r.cell, x: r.x, z: r.z })
        .collect();

    // Nothing more to do while the camera stays.
    let again = missing_sites(&spawned, camera, 28, 42);
    assert!(again.iter().all(|s| slabs.iter().all(|r| r.cell != s.cell)));

    // Far away every strip is dropped.
    let away = (1_000 * KM, 0);
    let empty = stream_runways(&mut spawned, false, Some(away), 28, &Vec::new(), &Vec::new(), &slabs);
    assert_eq!(empty.despawn.len(), slabs.len());

    // A changed world drops everything at once.
    let mut other = SpawnedRunways::default();
    let all = stream_runways(&mut other, true, None, 28, &Vec::new(), &Vec::new(), &slabs);
    assert_eq!(all.despawn.len(), slabs.len());
    assert!(all.spawn.is_empty());
}

#[test]
fn fixtures_are_all_there() {
    let fixtures = runway_fixtures();
    assert_eq!(fixtures.len(), 105);
    let slabs = fixtures.iter().filter(|f| matches!(f.shape, Shape::Slab { .. })).count();
    let paint = fixtures.iter().filter(|f| matches!(f.shape, Shape::Paint { .. })).count();
    assert_eq!(slabs, 1);
    // Forty dashes and two rows of eight bars.
    assert_eq!(paint, 56);
    let reils = fixtures
        .iter()
        .filter(|f| matches!(f.shape, Shape::Light { role: LampRole::Reil, .. }))
        .count();
    assert_eq!(reils, 4);
}

#[test]
fn approach_lights_run_to_the_threshold() {
    let mut clock = RunwayLightClock::default();
    let first = animate_runway_lights(&mut clock, 0);
    assert_eq!(first.active_index, 3);
    assert!(first.reil_on);
    let second = animate_runway_lights(&mut clock, 100_000_000);
    assert_eq!(second.active_index, 2);
    assert!(!second.reil_on);
    let third = animate_runway_lights(&mut clock, 100_000_000);
    assert_eq!(third.active_index, 1);
    let fourth = animate_runway_lights(&mut clock, 100_000_000);
    assert_eq!(fourth.active_index, 3);
    let flash = animate_runway_lights(&mut clock, 700_000_000);
    assert!(flash.reil_on);
    for f in runway_fixtures() {
        if let Shape::Light { lamp, role } = f.shape {
            let lit = flash.intensity(&lamp, &role);
            match role {
                LampRole::Steady => assert_eq!(lit, lamp.intensity),
                LampRole::Reil => assert!(lit > 0),
                LampRole::Als { index, .. } => assert_eq!(lit > 0, index == flash.active_index),
            }
        }
    }
}

// --- Chunks --------------------------------------------------------------

#[test]
fn camera_chunk_rounds_to_the_nearest() {
    assert_eq!(camera_chunk(None), None);
    assert_eq!(camera_chunk(Some((0, 0))), Some((0, 0)));
    assert_eq!(camera_chunk(Some((260 * ONE, -260 * ONE))), Some((1, -1)));
    assert_eq!(camera_chunk(Some((240 * ONE, -240 * ONE))), Some((0, 0)));
}

#[test]
fn detail_falls_with_distance() {
    let manager = ChunkManager::default();
    assert_eq!(manager.render_distance, 28);
    assert_eq!(lod_bands()[0].subdivisions, 12);
    assert_eq!(lod_for_distance_sq(0, &manager), 12);
    assert_eq!(lod_for_distance_sq(4, &manager), 12);
    assert_eq!(lod_for_distance_sq(5, &manager), 8);
    assert_eq!(lod_for_distance_sq(36, &manager), 8);
    assert_eq!(lod_for_distance_sq(37, &manager), 3);
    assert_eq!(lod_for_distance_sq(401, &manager), 1);
    assert_eq!(lod_for_distance_sq(1_000_000, &manager), 1);
    assert_eq!(chunk_distance_sq(3, -4, (0, 0)), 25);
}

#[test]
fn chunks_spawn_nearest_first_and_once() {
    let mut manager = ChunkManager::default();
    manager.render_distance = 1;
    let settings = WorldGenerationSettings::default();
    assert_eq!(settings.max_chunks_per_frame, 3);
    let first = generate_chunks(&mut manager, Some((0, 0)), &settings);
    assert_eq!(first.len(), 3);
    assert_eq!((first[0].x, first[0].z), (0, 0));
    assert_eq!(first[0].current_lod, 12);
    let second = generate_chunks(&mut manager, Some((0, 0)), &settings);
    // The disc of radius one has five chunks.
    assert_eq!(second.len(), 2);
    let third = generate_chunks(&mut manager, Some((0, 0)), &settings);
    assert!(third.is_empty());
    let mut seen: Vec<(i32, i32)> = first.iter().chain(second.iter()).map(|c| (c.x, c.z)).collect();
    seen.sort();
    assert_eq!(seen, vec![(-1, 0), (0, -1), (0, 0), (0, 1), (1, 0)]);
    // Without a camera nothing spawns.
    let mut fresh = ChunkManager::default();
    assert!(generate_chunks(&mut fresh, None, &settings).is_empty());
}

fn record(entity: u64, x: i32, z: i32, lod: u32) -> ChunkRecord {
    ChunkRecord { entity, chunk: Chunk { x, z, current_lod: lod } }
}

#[test]
fn distant_chunks_are_dropped_and_may_return() {
    let mut manager = ChunkManager::default();
    manager.render_distance = 1;
    let settings = WorldGenerationSettings { max_chunks_per_frame: 10 };
    let spawned = generate_chunks(&mut manager, Some((0, 0)), &settings);
    assert_eq!(spawned.len(), 5);
    let records: Vec<ChunkRecord> =
        spawned.iter().enumerate().map(|(i, c)| ChunkRecord { entity: i as u64, chunk: *c }).collect();
    // In view, nothing is dropped.
    assert!(despawn_out_of_bounds_chunks(&mut manager, Some((0, 0)), &records, &settings).is_empty());
    let dropped = despawn_out_of_bounds_chunks(&mut manager, Some((100, 0)), &records, &settings);
    assert_eq!(dropped.len(), 5);
    // Dropped chunks spawn again when the camera is back.
    manager.last_camera_chunk = None;
    assert_eq!(generate_chunks(&mut manager, Some((0, 0)), &settings).len(), 5);
}

#[test]
fn finished_meshes_are_polled_nearest_first() {
    let tasks = vec![record(1, 5, 0, 8), record(2, 1, 0, 12), record(3, 3, 0, 8)];
    let settings = WorldGenerationSettings { max_chunks_per_frame: 1 };
    let mut pass = apply_chunk_meshes(&tasks, Some((0, 0)), &settings);
    assert_eq!(pass.next(), Some(1));
    assert_eq!(pass.next(), Some(2));
    pass.swapped_in();
    // The frame's budget is spent.
    assert_eq!(pass.next(), None);
}

#[test]
fn detail_is_rebuilt_where_it_is_off() {
    let mut manager = ChunkManager::default();
    let settings = WorldGenerationSettings::default();
    let mut records = vec![record(1, 0, 0, 12), record(2, 3, 0, 12), record(3, 10, 0, 12)];
    let mut last = None;
    let rebuilds = update_chunk_lod(&mut manager, &mut last, Some((0, 0)), &mut records, &settings);
    // The farthest of the queue is rebuilt first.
    assert_eq!(rebuilds, vec![(3, 3), (2, 8)]);
    assert_eq!(records[1].chunk.current_lod, 8);
    assert_eq!(last, Some((0, 0)));
    let again = update_chunk_lod(&mut manager, &mut last, Some((0, 0)), &mut records, &settings);
    assert!(again.is_empty());
}

#[test]
fn world_is_rebuilt_once_edits_settle() {
    let mut state = RegenState { pending: None, seen: None };
    let mut manager = ChunkManager::default();
    let mut settings = WorldGenerationSettings::default();
    let mut config = WorldGenConfig::default();
    config.render_distance = 7;
    config.max_chunks_per_frame = 9;
    let frame = 100_000_000;
    // The first sighting is setup.
    assert!(!regenerate_terrain(&mut state, true, &config, frame, &mut manager, &mut settings));
    assert_eq!(manager.render_distance, 7);
    assert_eq!(settings.max_chunks_per_frame, 9);
    generate_chunks(&mut manager, Some((0, 0)), &settings);
    assert!(!manager.spawned_chunks.is_empty());
    config.seed += 1;
    assert!(!regenerate_terrain(&mut state, true, &config, frame, &mut manager, &mut settings));
    assert!(!regenerate_terrain(&mut state, false, &config, frame, &mut manager, &mut settings));
    assert!(regenerate_terrain(&mut state, false, &config, frame, &mut manager, &mut settings));
    assert!(manager.spawned_chunks.is_empty());
    assert!(!regenerate_terrain(&mut state, false, &config, frame, &mut manager, &mut settings));
}

#[test]
fn streaming_settings_do_not_rebuild_the_world() {
    let mut state = RegenState { pending: None, seen: None };
    let mut manager = ChunkManager::default();
    let mut settings = WorldGenerationSettings::default();
    let mut config = WorldGenConfig::default();
    let second = 1_000_000_000;
    assert!(!regenerate_terrain(&mut state, true, &config, second, &mut manager, &mut settings));
    generate_chunks(&mut manager, Some((0, 0)), &settings);
    let spawned = manager.spawned_chunks.len();
    assert!(spawned > 0);
    config.lod_levels[0].subdivisions = 5;
    config.render_distance = 9;
    config.max_chunks_per_frame = 2;
    assert!(!regenerate_terrain(&mut state, true, &config, second, &mut manager, &mut settings));
    assert!(!regenerate_terrain(&mut state, false, &config, second, &mut manager, &mut settings));
    assert_eq!(manager.lod_levels[0].subdivisions, 5);
    assert_eq!(manager.render_distance, 9);
    assert_eq!(settings.max_chunks_per_frame, 2);
    assert_eq!(manager.spawned_chunks.len(), spawned);
    // A change of the land rebuilds at once after a long frame.
    config.height_scale += 1;
    assert!(regenerate_terrain(&mut state, true, &config, second, &mut manager, &mut settings));
}

#[test]
fn new_worlds_stream_28_chunks_out_three_a_frame() {
    let config = WorldGenConfig::default();
    assert_eq!((config.render_distance, config.max_chunks_per_frame), (28, 3));
}

// --- Land ----------------------------------------------------------------

fn flat_sample() -> NoiseSample {
    NoiseSample { base: 0, temperature: 0, humidity: 0, continent: ONE, latitude_cos: 0 }
}

#[test]
fn remap_keeps_the_middle() {
    assert_eq!(remap_axis(300_000_000, 0, ONE), 300_000_000);
    assert_eq!(remap_axis(300_000_000, 100_000_000, ONE), 400_000_000);
    assert_eq!(remap_axis(300_000_000, 0, 2 * ONE), 100_000_000);
    assert_eq!(remap_axis(0, -ONE, ONE), 0);
    assert_eq!(remap_axis(ONE, ONE, ONE), ONE);
}

#[test]
fn weights_follow_the_climate() {
    let mut config = WorldGenConfig::default();
    config.grasslands.abundance = ONE;
    config.taiga.abundance = ONE;
    config.desert.abundance = ONE;
    config.forest.abundance = ONE;
    // Cold and dry is grassland, hot and wet is forest.
    assert_eq!(biome_weights(&config, 0, 0), [ONE, 0, 0, 0]);
    assert_eq!(biome_weights(&config, 0, ONE), [0, ONE, 0, 0]);
    assert_eq!(biome_weights(&config, ONE, 0), [0, 0, ONE, 0]);
    assert_eq!(biome_weights(&config, ONE, ONE), [0, 0, 0, ONE]);
    assert_eq!(biome_weights(&config, ONE / 2, ONE / 2), [ONE / 4; 4]);
    config.grasslands.abundance = 0;
    config.taiga.abundance = 0;
    config.desert.abundance = 0;
    config.forest.abundance = 0;
    // No biome at all: an even split.
    assert_eq!(biome_weights(&config, 0, 0), [ONE / 4; 4]);
}

#[test]
fn land_is_land_and_sea_is_sea() {
    let config = WorldGenConfig::default();
    assert_eq!(ocean_factor(&config, ONE), 0);
    assert_eq!(ocean_factor(&config, 0), ONE);
    let world = WorldGenerator::from_config(&config);
    let inland = flat_sample();
    let mut offshore = flat_sample();
    offshore.continent = -ONE;
    assert_eq!(world.get_biome(&offshore), Biome::Ocean);
    assert_ne!(world.get_biome(&inland), Biome::Ocean);
    assert!(world.natural_height(&inland) > 0);
    assert!(world.natural_height(&offshore) < 0);
    // Open sea without relief lies exactly at the basin's depth.
    assert_eq!(shape_raw(&config, 0, 0, 0, ONE), -config.ocean_depth);
    assert_eq!(shape_raw(&config, 0, 0, 0, 0), config.grasslands.elevation);
}

#[test]
fn generator_keeps_its_settings() {
    let mut config = WorldGenConfig::default();
    config.seed = 77;
    config.horizontal_scale = 2 * ONE;
    let world = WorldGenerator::from_config(&config);
    assert_eq!(world.seed(), 77);
    assert_eq!(world.layers.len(), 8);
    assert_eq!(world.layers[0].frequency, 160_000_000);
    assert_eq!(world.layers[0].amplitude, 4_500_000_000);
    assert_eq!(world.layers[4].seed, 377);
    assert_eq!(world.layers[7].seed, 677);
    let sample = flat_sample();
    let natural = world.sample_natural(&sample);
    assert_eq!(natural.height, world.natural_height(&sample));
    let (temp, humidity) = world.get_climate(&sample);
    assert!((0..=ONE).contains(&temp) && (0..=ONE).contains(&humidity));
    assert_eq!(world.get_terrain_height(&sample, &Vec::new(), &Vec::new()), natural.height);
    let on = vec![(0, 0)];
    assert_eq!(world.get_terrain_height(&sample, &vec![strip(0)], &on), 100_300_000_000);
    // A band of latitude is a full turn.
    assert_eq!(world.latitude_angle(world.config.latitude_band), 6_283_185_307);
}

#[test]
fn palettes_blend_between_their_stops() {
    for biome in [Biome::Grasslands, Biome::Taiga, Biome::Desert, Biome::Forest] {
        let stops = palette(biome);
        let lowest = palette_color(stops[0].height - ONE, &stops);
        assert_eq!((lowest.lower, lowest.upper), (0, 0));
        let last = stops.len() - 1;
        let highest = palette_color(stops[last].height + ONE, &stops);
        assert_eq!((highest.lower, highest.upper), (last, last));
        let middle = palette_color((stops[0].height + stops[1].height) / 2, &stops);
        assert_eq!((middle.lower, middle.upper), (0, 1));
        assert!((middle.t - ONE / 2).abs() <= 1);
    }
}

#[test]
fn facets_take_their_average_colour() {
    let mut colours = vec![
        [0, 0, 0, ONE],
        [300, 600, 900, ONE],
        [600, 0, 0, ONE],
        [1, 2, 3, 4],
        [5, 6, 7, 8],
    ];
    flatten_colours(&mut colours);
    assert_eq!(colours[0], [300, 200, 300, ONE]);
    assert_eq!(colours[1], colours[0]);
    assert_eq!(colours[2], colours[0]);
    // An incomplete triangle keeps its colours.
    assert_eq!(colours[3], [1, 2, 3, 4]);
    assert_eq!(colours[4], [5, 6, 7, 8]);
}

#[test]
fn surface_colour_mixes_the_biomes() {
    let w = [ONE / 2, 0, ONE / 2, 0];
    let red = [ONE, 0, 0, ONE];
    let blue = [0, 0, ONE, ONE];
    let other = [ONE, ONE, ONE, ONE];
    assert_eq!(terrain_color(&w, &red, &other, &blue, &other), [ONE / 2, 0, ONE / 2, ONE]);
}

#[test]
fn noise_layers_are_shifted_by_their_seed() {
    let mut config = WorldGenConfig::default();
    config.seed = 100;
    config.horizontal_scale = ONE;
    let world = WorldGenerator::from_config(&config);
    // 100 * 1337.42 leaves 33742 beyond 100,000, with the root 183.689955...
    let (u, v) = world.layers[0].noise_point(5 * KM, -2 * KM);
    assert_eq!(u, 33_742_400_000_000);
    assert_eq!(v, 202_994_000_000_000 + 183_689_956_176 - 160_000_000);
    assert_ne!(world.layers[4].noise_point(0, 0).0, world.layers[3].noise_point(0, 0).0);
}

#[test]
fn noise_layers_count_by_amplitude() {
    let world = WorldGenerator::from_config(&WorldGenConfig::default());
    let noise = [ONE, ONE, ONE, ONE, -ONE, 300_000_000, -400_000_000, 500_000_000];
    let sample = world.gather(&noise, -ONE);
    assert_eq!(
        sample,
        NoiseSample {
            base: 9_850_000_000,
            temperature: 300_000_000,
            humidity: -400_000_000,
            continent: 500_000_000,
            latitude_cos: -ONE,
        }
    );
}
