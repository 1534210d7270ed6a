use flight_sim::physics::aircraft_physics::fuselage_drag;
use flight_sim::physics::flight_config::{FlightModelConfig, CARGO_MAX_KG, FUEL_TANK_MAX_KG};

const ONE: i64 = 1_000_000_000;

fn close(a: i64, b: i64, tolerance: i64) -> bool {
    (a - b).abs() < tolerance
}

// --- loaded_mass_properties -------------------------------------------

// Pilot only and a third of a tank each side: empty + pilot + fuel.
#[test]
fn loaded_mass_pilot_only() {
    let cfg = FlightModelConfig::default();
    let (mass, _com, _inertia) = cfg.loaded_mass_properties();
    let expected_mass = 767 * ONE + 86 * ONE + 2 * (75 * ONE / 3);
    assert!(close(mass, expected_mass, ONE / 10), "got {mass}");
}

// With equal left/right fuel the CoM x-offset must be essentially zero.
#[test]
fn balanced_fuel_keeps_com_centred_laterally() {
    let mut cfg = FlightModelConfig::default();
    cfg.cargo.fuel_left_kg = 40 * ONE;
    cfg.cargo.fuel_right_kg = 40 * ONE;
    let (_, com, _) = cfg.loaded_mass_properties();
    assert!(com.x.abs() < 50_000_000, "got x={}", com.x);
}

// A heavy left tank should shift the CoM to the left (negative x).
#[test]
fn heavy_left_tank_shifts_com_left() {
    let mut cfg = FlightModelConfig::default();
    cfg.cargo.fuel_left_kg = 70 * ONE;
    cfg.cargo.fuel_right_kg = 0;
    let (_, com, _) = cfg.loaded_mass_properties();
    assert!(com.x < 0, "got {}", com.x);
}

// Aft baggage should move the CoM rearward (negative z in body frame).
#[test]
fn aft_baggage_shifts_com_rearward() {
    let mut cfg_no_cargo = FlightModelConfig::default();
    cfg_no_cargo.cargo.cargo_kg = 0;
    let mut cfg_cargo = FlightModelConfig::default();
    cfg_cargo.cargo.cargo_kg = CARGO_MAX_KG;
    let (_, com_no, _) = cfg_no_cargo.loaded_mass_properties();
    let (_, com_cargo, _) = cfg_cargo.loaded_mass_properties();
    assert!(com_cargo.z < com_no.z, "no cargo {} cargo {}", com_no.z, com_cargo.z);
}

// Adding any load must strictly increase total inertia on all axes.
#[test]
fn inertia_increases_with_load() {
    let mut cfg_empty = FlightModelConfig::default();
    cfg_empty.cargo.fuel_left_kg = 0;
    cfg_empty.cargo.fuel_right_kg = 0;
    cfg_empty.cargo.cargo_kg = 0;
    cfg_empty.cargo.passengers = 0;

    let mut cfg_full = FlightModelConfig::default();
    cfg_full.cargo.fuel_left_kg = FUEL_TANK_MAX_KG;
    cfg_full.cargo.fuel_right_kg = FUEL_TANK_MAX_KG;
    cfg_full.cargo.cargo_kg = CARGO_MAX_KG;
    cfg_full.cargo.passengers = 4;

    let (_, _, i_empty) = cfg_empty.loaded_mass_properties();
    let (_, _, i_full) = cfg_full.loaded_mass_properties();
    assert!(i_full.x > i_empty.x, "Pitch inertia must increase with load");
    assert!(i_full.y > i_empty.y, "Yaw inertia must increase with load");
    assert!(i_full.z > i_empty.z, "Roll inertia must increase with load");
}

// CoM must stay in front of (or at) the main gear to prevent tail-tipping.
#[test]
fn com_forward_of_main_gear() {
    let cfg = FlightModelConfig::default();
    let (_, com, _) = cfg.loaded_mass_properties();
    assert!(
        com.z >= cfg.landing_gear.gear_main_z - 10_000_000,
        "com.z={} gear_z={}",
        com.z,
        cfg.landing_gear.gear_main_z
    );
}

// --- FlightModelConfig default sanity ---------------------------------

#[test]
fn config_sensitivities_positive() {
    let cfg = FlightModelConfig::default();
    assert!(cfg.pitch_sensitivity > 0);
    assert!(cfg.roll_sensitivity > 0);
    assert!(cfg.yaw_sensitivity > 0);
    assert!(cfg.throttle_rate > 0);
    assert!(cfg.servo_tau > 0);
}

#[test]
fn aero_damp_positive() {
    let cfg = FlightModelConfig::default();
    assert!(cfg.aero_damp.x > 0, "roll damp must be positive");
    assert!(cfg.aero_damp.y > 0, "yaw damp must be positive");
    assert!(cfg.aero_damp.z > 0, "pitch damp must be positive");
}

// The nose axis (z) is the streamlined direction.
#[test]
fn fuselage_drag_nose_streamlined() {
    let cfg = FlightModelConfig::default();
    assert!(cfg.fuselage_drag.z > 0, "nose drag must be positive");
    assert!(cfg.fuselage_drag.x > cfg.fuselage_drag.z, "side drag must exceed nose drag");
    assert!(cfg.fuselage_drag.y > cfg.fuselage_drag.z, "belly drag must exceed nose drag");
}

// Engine spool must take at least a fraction of a second (not instant).
#[test]
fn engine_spool_time_constants_nonzero() {
    let cfg = FlightModelConfig::default();
    assert!(cfg.engine_spool_up_tau >= ONE / 2, "spool-up too fast");
    assert!(cfg.engine_spool_down_tau >= ONE / 2, "spool-down too fast");
}

// The main wheels must sit behind the nose wheel.
#[test]
fn tricycle_gear_layout() {
    let cfg = FlightModelConfig::default();
    assert!(
        cfg.landing_gear.gear_nose_z > cfg.landing_gear.gear_main_z,
        "nose_z={} main_z={}",
        cfg.landing_gear.gear_nose_z,
        cfg.landing_gear.gear_main_z
    );
}

// --- Fuselage drag formula -------------------------------------------

// F = 0.5 * rho * CdA * v^2 at a known speed.
#[test]
fn fuselage_nose_drag_at_60ms() {
    let rho = 1_200_000_000;
    let cda_z = 100_000_000;
    let speed = 60 * ONE;
    let drag = -fuselage_drag(rho, cda_z, speed);
    assert!(close(drag, 216 * ONE, ONE), "got {drag}");
}

// Doubling speed must quadruple drag.
#[test]
fn fuselage_drag_quadratic_with_speed() {
    let rho = 1_200_000_000;
    let cda = FlightModelConfig::default().fuselage_drag.z;
    let d30 = -fuselage_drag(rho, cda, 30 * ONE);
    let d60 = -fuselage_drag(rho, cda, 60 * ONE);
    let ratio = d60 as f64 / d30 as f64;
    assert!((ratio - 4.0).abs() < 0.01, "got ratio {ratio:.3}");
}

// --- C172 plausibility ----------------------------------------

#[test]
fn thrust_max_plausible_for_c172() {
    let cfg = FlightModelConfig::default();
    assert!(cfg.thrust_max > 1500 * ONE && cfg.thrust_max < 4000 * ONE);
}

#[test]
fn empty_mass_close_to_c172() {
    let cfg = FlightModelConfig::default();
    assert!(cfg.mass > 600 * ONE && cfg.mass < 920 * ONE);
}

#[test]
fn prop_rps_ordering() {
    let cfg = FlightModelConfig::default();
    assert!(cfg.propeller.prop_idle_rps > 0);
    assert!(cfg.propeller.prop_max_rps > cfg.propeller.prop_idle_rps);
}

#[test]
fn wing_aspect_ratio_realistic() {
    let cfg = FlightModelConfig::default();
    assert!(cfg.wing.aspect_ratio > 4 * ONE && cfg.wing.aspect_ratio < 12 * ONE);
}

#[test]
fn gravity_earth_standard() {
    let cfg = FlightModelConfig::default();
    assert!(close(cfg.gravity, 9_810_000_000, ONE / 2), "got {}", cfg.gravity);
}

#[test]
fn swapped_tanks_mirror_the_balance() {
    let mut cfg = FlightModelConfig::default();
    cfg.cargo.fuel_left_kg = 70_000_000_000;
    cfg.cargo.fuel_right_kg = 10_000_000_000;
    cfg.cargo.passengers = 2;
    cfg.center_of_mass.x = 0;
    let (mass, com, inertia) = cfg.loaded_mass_properties();
    std::mem::swap(&mut cfg.cargo.fuel_left_kg, &mut cfg.cargo.fuel_right_kg);
    let (swapped_mass, swapped_com, swapped_inertia) = cfg.loaded_mass_properties();
    assert!(com.x < -100_000_000);
    assert_eq!(swapped_mass, mass);
    assert!((com.x + swapped_com.x).abs() <= 1);
    assert_eq!((swapped_com.y, swapped_com.z), (com.y, com.z));
    assert_eq!(swapped_inertia.x, inertia.x);
    assert!((swapped_inertia.y - inertia.y).abs() <= 1);
    assert!((swapped_inertia.z - inertia.z).abs() <= 1);
}
