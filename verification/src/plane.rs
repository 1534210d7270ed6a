//! The aircraft's layout: where its aerodynamic surfaces are mounted, which
//! configuration each of them follows, and which node of the model is the
//! propeller. Positions are in tenths of metres with nine decimals.

use crate::fixed::{chain_of_products, scale, scaled, ONE};
use crate::physics::aero_model::{is_turn, Turn};
use crate::physics::aero_surface::{AeroSurface, ControlInputType};
use crate::physics::aero_surface_config::{AeroSurfaceConfig, TAU};
use crate::physics::aircraft_physics::{AircraftRoot, EngineState};
use crate::physics::flight_config::FlightModelConfig;
use crate::physics::rigid_body::Axes;
use crate::vector::{product_within, vec3, Vec3};
use vstd::prelude::*;

verus! {

/// What the physics reports each frame for the instruments and the overlay.
#[derive(Clone, Copy, Debug, PartialEq, Eq, Structural)]
pub struct PlaneState {
    pub speed: i64,
    pub thrust: i64,
    /// Total drag along the flight path (N).
    pub drag: i64,
    /// Share of the aerodynamic surfaces.
    pub drag_surface: i64,
    /// Share of the fuselage.
    pub drag_fuselage: i64,
    /// Vertical lift as a share of weight.
    pub lift_pct: i64,
    /// At least one landing-gear strut touches the ground.
    pub on_ground: bool,
    /// The wheel brakes are applied.
    pub braking: bool,
    /// The hull struck the ground.
    pub crashed: bool,
}

/// Gear standoff at spawn: rest length less mount height, 1.25 m.
pub const GEAR_STANDOFF: i64 = 1_250_000_000;

/// Where the aircraft starts: on the runway at the origin, near its far end, so
/// that the full length is ahead for the take-off roll.
pub const SPAWN_X: i64 = 0;

pub const SPAWN_Z: i64 = -900_000_000_000;

/// Where the aircraft starts on ground of the given height: the struts just touch.
pub fn spawn_position(ground: i64) -> (position: Vec3)
    requires
        ground <= 9_000_000_000_000_000_000,
    ensures
        position.x == SPAWN_X,
        position.y == ground + GEAR_STANDOFF,
        position.z == SPAWN_Z,
{
    vec3(SPAWN_X, ground + GEAR_STANDOFF, SPAWN_Z)
}

/// The aircraft starts with the throttle closed.
pub fn spawned_root() -> (root: AircraftRoot)
    ensures
        root == (AircraftRoot {
            throttle_percent: 0,
            engine_rps: 0,
            engine_state: EngineState::Running,
            crank_timer: 0,
            mixture: ONE,
            flap_target: 0,
            flap_setting: 0,
        }),
        root.wf(),
{
    let mut root: AircraftRoot = AircraftRoot::default();
    root.throttle_percent = 0;
    root
}

/// Size of the stand-in propeller in tenths of metres: a narrow chord, the full
/// span, and paper-thin.
pub open spec fn propeller_size(radius: int) -> (int, int, int) {
    let span = 20 * radius;
    ((span * 6) / 100, span, (span * 15) / 1000)
}

/// Size of the stand-in propeller for its disc's radius.
pub fn propeller_blade(radius: i64) -> (size: (i128, i128, i128))
    requires
        0 <= radius,
    ensures
        size.0 == propeller_size(radius as int).0,
        size.1 == propeller_size(radius as int).1,
        size.2 == propeller_size(radius as int).2,
{
    let span: i128 = 20 * radius as i128;
    (span * 6 / 100, span, span * 15 / 1000)
}

/// The angle a propeller turns through in a span of time, in nanoradians.
pub open spec fn turned(rps: int, dt: int) -> int {
    scaled(rps, scaled(TAU as int, dt))
}

/// The angle the propeller turns through in a frame at the engine's speed.
pub fn spin_propeller(rps: i64, dt: u64) -> (angle: i128)
    requires
        dt <= 1_000_000_000_000,
    ensures
        angle == turned(rps as int, dt as int),
{
    scale(rps, scale(TAU, dt as i64) as i64)
}

/// How a surface is turned: a left or right wing panel (with dihedral and
/// incidence), a flat horizontal surface, or an upright one.
#[derive(Clone, Copy, Debug, PartialEq, Eq, Structural)]
pub enum Panel {
    Left,
    Right,
    Flat,
    Upright,
}

/// The axes of a wing panel in the body's: the incidence turns the chord nose-up
/// about the span, then the dihedral tilts the whole panel about the body's nose.
/// `tilt` is the sine of the dihedral, positive where it lifts the side toward `+x`.
pub open spec fn tilted_axes(incidence: Turn, tilt: int, level: int) -> (
    (int, int, int),
    (int, int, int),
    (int, int, int),
) {
    let (s, c) = (incidence.sin as int, incidence.cos as int);
    (
        (-scaled(s, tilt), scaled(s, level), c),
        (-scaled(c, tilt), scaled(c, level), -s),
        (-level, -tilt, 0),
    )
}

/// The axes (chord, normal and span) of a panel in the body's: the span points to
/// the left, and that of an upright surface up. The dihedral lifts both wings' tips.
pub open spec fn panel_frame(panel: Panel, incidence: Turn, dihedral: Turn) -> (
    (int, int, int),
    (int, int, int),
    (int, int, int),
) {
    let one = ONE as int;
    match panel {
        Panel::Left => tilted_axes(incidence, -dihedral.sin, dihedral.cos as int),
        Panel::Right => tilted_axes(incidence, dihedral.sin as int, dihedral.cos as int),
        Panel::Flat => ((0, 0, one), (0, one, 0), (-one, 0, 0)),
        Panel::Upright => ((0, 0, one), (one, 0, 0), (0, one, 0)),
    }
}

fn tilt_axes(incidence: Turn, tilt: i64, level: i64) -> (axes: Axes)
    requires
        is_turn(incidence),
        -ONE <= tilt <= ONE,
        -ONE <= level <= ONE,
    ensures
        (axes.x.parts(), axes.y.parts(), axes.z.parts()) == tilted_axes(
            incidence,
            tilt as int,
            level as int,
        ),
        axes.wf(),
{
    let (s, c) = (incidence.sin, incidence.cos);
    proof {
        let one = ONE as int;
        product_within(s as int, tilt as int, one, one);
        product_within(s as int, level as int, one, one);
        product_within(c as int, tilt as int, one, one);
        product_within(c as int, level as int, one, one);
    }
    Axes {
        x: vec3(-(scale(s, tilt) as i64), scale(s, level) as i64, c),
        y: vec3(-(scale(c, tilt) as i64), scale(c, level) as i64, -s),
        z: vec3(-level, -tilt, 0),
    }
}

/// How a panel is turned against the body, for the wing's incidence and dihedral.
pub fn wing_panel_rotation(panel: Panel, incidence: Turn, dihedral: Turn) -> (axes: Axes)
    requires
        is_turn(incidence),
        is_turn(dihedral),
    ensures
        (axes.x.parts(), axes.y.parts(), axes.z.parts()) == panel_frame(
            panel,
            incidence,
            dihedral,
        ),
        axes.wf(),
{
    match panel {
        Panel::Left => tilt_axes(incidence, -dihedral.sin, dihedral.cos),
        Panel::Right => tilt_axes(incidence, dihedral.sin, dihedral.cos),
        Panel::Flat => Axes { x: vec3(0, 0, ONE), y: vec3(0, ONE, 0), z: vec3(-ONE, 0, 0) },
        Panel::Upright => Axes { x: vec3(0, 0, ONE), y: vec3(ONE, 0, 0), z: vec3(0, ONE, 0) },
    }
}

/// Both wingtips are above the root: toward its tip, which is along the span on the
/// left and against it on the right, each wing rises by the dihedral's sine.
pub proof fn wingtips_sit_above_the_root(incidence: Turn, dihedral: Turn)
    ensures
        panel_frame(Panel::Left, incidence, dihedral).2.1 == dihedral.sin,
        -panel_frame(Panel::Right, incidence, dihedral).2.1 == dihedral.sin,
        panel_frame(Panel::Left, incidence, dihedral).2.0 == -dihedral.cos,
        -panel_frame(Panel::Right, incidence, dihedral).2.0 == dihedral.cos,
{
}

/// The wings mirror each other, but for the last decimal: both are pitched up alike.
pub proof fn wings_mirror_each_other(incidence: Turn, dihedral: Turn)
    ensures
        ({
            let l = panel_frame(Panel::Left, incidence, dihedral);
            let r = panel_frame(Panel::Right, incidence, dihedral);
            &&& 0 <= l.0.0 + r.0.0 <= 1
            &&& l.0.1 == r.0.1
            &&& l.0.2 == r.0.2
            &&& 0 <= l.1.0 + r.1.0 <= 1
            &&& l.1.1 == r.1.1
            &&& l.1.2 == r.1.2
        }),
{
    let d = dihedral.sin as int;
    assert(incidence.sin * (-d) == -(incidence.sin * d)) by (nonlinear_arith);
    assert(incidence.cos * (-d) == -(incidence.cos * d)) by (nonlinear_arith);
}

/// Without incidence and dihedral a wing panel is flat.
pub proof fn level_panels_are_flat(panel: Panel, none: Turn)
    requires
        none.sin == 0,
        none.cos == ONE,
        panel != Panel::Upright,
    ensures
        panel_frame(panel, none, none) == panel_frame(Panel::Flat, none, none),
{
    assert(scaled(0, 0) == 0);
    assert(scaled(0, ONE as int) == 0);
    assert(scaled(ONE as int, 0) == 0);
    assert(scaled(ONE as int, ONE as int) == ONE);
}

/// A surface at its place.
#[derive(Clone, Copy, Debug, PartialEq, Eq, Structural)]
pub struct SurfaceMount {
    pub surface: AeroSurface,
    pub position: Vec3,
    pub panel: Panel,
}

/// The configuration that a surface follows, by its control: flaps are on the
/// wing, roll is the ailerons', pitch the elevator's, yaw the rudder's; surfaces
/// without a control are the body's.
pub open spec fn config_for(
    config: FlightModelConfig,
    is_control: bool,
    input: ControlInputType,
) -> AeroSurfaceConfig {
    if is_control {
        match input {
            ControlInputType::Flap => config.wing,
            ControlInputType::Roll => config.aileron,
            ControlInputType::Pitch => config.elevator,
            ControlInputType::Yaw => config.rudder,
        }
    } else {
        config.body_lift
    }
}

/// The configuration that a surface follows.
pub fn surface_config(config: &FlightModelConfig, is_control: bool, input: ControlInputType) -> (r:
    AeroSurfaceConfig)
    ensures
        r == config_for(*config, is_control, input),
{
    if is_control {
        match input {
            ControlInputType::Flap => config.wing,
            ControlInputType::Roll => config.aileron,
            ControlInputType::Pitch => config.elevator,
            ControlInputType::Yaw => config.rudder,
        }
    } else {
        config.body_lift
    }
}

/// Pushes an edited configuration onto a live surface. The answer tells whether
/// the wing's rigging incidence is applied to it anew: that is done for the panels
/// of the main wing (flaps) and for the ailerons (roll); every other surface keeps
/// the orientation it was mounted with.
pub fn apply_config(config: &FlightModelConfig, surface: &mut AeroSurface) -> (rerig: bool)
    ensures
        *final(surface) == (AeroSurface {
            config: config_for(*config, old(surface).is_control_surface, old(surface).input_type),
            ..*old(surface)
        }),
        rerig <==> old(surface).is_control_surface && (old(surface).input_type
            == ControlInputType::Flap || old(surface).input_type == ControlInputType::Roll),
{
    surface.config = surface_config(config, surface.is_control_surface, surface.input_type);
    surface.is_control_surface && match surface.input_type {
        ControlInputType::Flap => true,
        ControlInputType::Roll => true,
        _ => false,
    }
}

/// The surfaces that are rigged anew are those that were mounted as wing panels, so
/// that tuning leaves the tail, the fin and the body where they are.
pub proof fn only_wing_panels_are_rigged(config: FlightModelConfig, dihedral_tan: int, i: int)
    requires
        0 <= i < mounts_of(config, dihedral_tan).len(),
    ensures
        ({
            let m = mounts_of(config, dihedral_tan)[i];
            (m.surface.is_control_surface && (m.surface.input_type == ControlInputType::Flap
                || m.surface.input_type == ControlInputType::Roll)) <==> (m.panel == Panel::Left
                || m.panel == Panel::Right)
        }),
{
}

/// A control surface as it is mounted.
pub open spec fn control_mount(
    config: FlightModelConfig,
    input: ControlInputType,
    multiplier: int,
    position: Vec3,
    panel: Panel,
) -> SurfaceMount {
    SurfaceMount {
        surface: AeroSurface {
            config: config_for(config, true, input),
            is_control_surface: true,
            input_type: input,
            input_multiplier: multiplier as i64,
            flap_angle: 0,
        },
        position,
        panel,
    }
}

/// A body surface as it is mounted.
pub open spec fn body_mount(config: FlightModelConfig, x: int) -> SurfaceMount {
    SurfaceMount {
        surface: AeroSurface {
            config: config.body_lift,
            is_control_surface: false,
            input_type: ControlInputType::Roll,
            input_multiplier: ONE,
            flap_angle: 0,
        },
        position: Vec3 { x: x as i64, y: 10_000_000_000, z: 5_000_000_000 },
        panel: Panel::Flat,
    }
}

/// A wing station: the dihedral raises it by its distance from the centreline
/// times the dihedral's tangent.
pub open spec fn wing_station(x: int, dihedral_tan: int) -> Vec3 {
    let arm = if x < 0 {
        -x
    } else {
        x
    };
    Vec3 {
        x: x as i64,
        y: (10_000_000_000 + scaled(arm, dihedral_tan)) as i64,
        z: 5_000_000_000,
    }
}

/// The surfaces of the aircraft, in order: wings, ailerons, body, elevator and
/// rudder.
pub open spec fn mounts_of(config: FlightModelConfig, dihedral_tan: int) -> Seq<SurfaceMount> {
    let wing = ControlInputType::Flap;
    let aileron = ControlInputType::Roll;
    seq![
        control_mount(
            config,
            wing,
            ONE as int,
            wing_station(-25_000_000_000, dihedral_tan),
            Panel::Left,
        ),
        control_mount(
            config,
            wing,
            ONE as int,
            wing_station(25_000_000_000, dihedral_tan),
            Panel::Right,
        ),
        control_mount(
            config,
            aileron,
            -ONE,
            wing_station(-50_000_000_000, dihedral_tan),
            Panel::Left,
        ),
        control_mount(
            config,
            aileron,
            ONE as int,
            wing_station(50_000_000_000, dihedral_tan),
            Panel::Right,
        ),
        body_mount(config, -10_000_000_000),
        body_mount(config, 10_000_000_000),
        control_mount(
            config,
            ControlInputType::Pitch,
            ONE as int,
            Vec3 { x: 0, y: 7_000_000_000, z: (-58_000_000_000) as i64 },
            Panel::Flat,
        ),
        control_mount(
            config,
            ControlInputType::Yaw,
            ONE as int,
            Vec3 { x: 0, y: 10_000_000_000, z: (-58_000_000_000) as i64 },
            Panel::Upright,
        ),
    ]
}

fn mount_control(
    config: &FlightModelConfig,
    input: ControlInputType,
    multiplier: i64,
    position: Vec3,
    panel: Panel,
) -> (m: SurfaceMount)
    ensures
        m == control_mount(*config, input, multiplier as int, position, panel),
{
    SurfaceMount {
        surface: AeroSurface::control(surface_config(config, true, input), input, multiplier),
        position,
        panel,
    }
}

/// The surface layout of the aircraft; `dihedral_tan` is the tangent of the
/// wing's dihedral.
pub fn surface_mounts(config: &FlightModelConfig, dihedral_tan: i64) -> (mounts: Vec<SurfaceMount>)
    requires
        -100_000_000_000 <= dihedral_tan <= 100_000_000_000,
    ensures
        mounts@ == mounts_of(*config, dihedral_tan as int),
{
    let wing_y: i64 = 10_000_000_000 + scale(25_000_000_000, dihedral_tan) as i64;
    let aileron_y: i64 = 10_000_000_000 + scale(50_000_000_000, dihedral_tan) as i64;
    let z: i64 = 5_000_000_000;
    let body: AeroSurface = AeroSurface::wing(config.body_lift);
    let mounts: Vec<SurfaceMount> = vec![
        mount_control(
            config,
            ControlInputType::Flap,
            ONE,
            vec3(-25_000_000_000, wing_y, z),
            Panel::Left,
        ),
        mount_control(
            config,
            ControlInputType::Flap,
            ONE,
            vec3(25_000_000_000, wing_y, z),
            Panel::Right,
        ),
        mount_control(
            config,
            ControlInputType::Roll,
            -1_000_000_000,
            vec3(-50_000_000_000, aileron_y, z),
            Panel::Left,
        ),
        mount_control(
            config,
            ControlInputType::Roll,
            ONE,
            vec3(50_000_000_000, aileron_y, z),
            Panel::Right,
        ),
        SurfaceMount {
            surface: body,
            position: vec3(-10_000_000_000, 10_000_000_000, z),
            panel: Panel::Flat,
        },
        SurfaceMount {
            surface: body,
            position: vec3(10_000_000_000, 10_000_000_000, z),
            panel: Panel::Flat,
        },
        mount_control(
            config,
            ControlInputType::Pitch,
            ONE,
            vec3(0, 7_000_000_000, -58_000_000_000),
            Panel::Flat,
        ),
        mount_control(
            config,
            ControlInputType::Yaw,
            ONE,
            vec3(0, 10_000_000_000, -58_000_000_000),
            Panel::Upright,
        ),
    ];
    assert(mounts@ =~= mounts_of(*config, dihedral_tan as int));
    mounts
}

/// Every surface is built with the configuration that later edits push onto it,
/// so spawning and live tuning cannot drift apart.
pub proof fn spawn_and_tuning_agree(config: FlightModelConfig, dihedral_tan: int, i: int)
    requires
        0 <= i < mounts_of(config, dihedral_tan).len(),
    ensures
        ({
            let s = mounts_of(config, dihedral_tan)[i].surface;
            s.config == config_for(config, s.is_control_surface, s.input_type)
        }),
{
}

/// A name holds the four letters at a place, in either case.
pub open spec fn prop_at(name: Seq<char>, i: int) -> bool {
    &&& 0 <= i
    &&& i + 4 <= name.len()
    &&& (name[i] == 'p' || name[i] == 'P')
    &&& (name[i + 1] == 'r' || name[i + 1] == 'R')
    &&& (name[i + 2] == 'o' || name[i + 2] == 'O')
    &&& (name[i + 3] == 'p' || name[i + 3] == 'P')
}

/// A name that contains "prop", in either case.
pub open spec fn names_propeller(name: Seq<char>) -> bool {
    exists|i: int| prop_at(name, i)
}

/// Whether a node's name says that it is the propeller: it contains "prop", in
/// either case.
pub fn is_propeller_name(name: &str) -> (r: bool)
    ensures
        r == names_propeller(name@),
{
    let n: usize = name.unicode_len();
    let mut i: usize = 0;
    while i < n
        invariant
            i <= n,
            n == name@.len(),
            forall|k: int| k < i ==> !prop_at(name@, k),
        decreases n - i,
    {
        if n - i >= 4 {
            let a: char = name.get_char(i);
            let b: char = name.get_char(i + 1);
            let c: char = name.get_char(i + 2);
            let d: char = name.get_char(i + 3);
            if (a == 'p' || a == 'P') && (b == 'r' || b == 'R') && (c == 'o' || c == 'O') && (d
                == 'p' || d == 'P') {
                assert(prop_at(name@, i as int));
                return true;
            }
        }
        i = i + 1;
    }
    false
}

/// The nodes of a model to tag as propellers: those whose name says so. A model
/// whose nodes have loaded is done once at least one was found.
pub fn tag_propeller(names: &Vec<String>) -> (tagged: Vec<usize>)
    ensures
        forall|i: int|
            0 <= i < tagged@.len() ==> (#[trigger] tagged@[i]) < names@.len() && names_propeller(
                names@[tagged@[i] as int]@,
            ),
        forall|i: int, j: int|
            0 <= i < j < tagged@.len() ==> #[trigger] tagged@[i] < #[trigger] tagged@[j],
        forall|k: usize|
            k < names@.len() && names_propeller(names@[k as int]@) ==> #[trigger] tagged@.contains(
                k,
            ),
{
    let mut tagged: Vec<usize> = Vec::new();
    let mut i: usize = 0;
    while i < names.len()
        invariant
            i <= names.len(),
            forall|n: int|
                0 <= n < tagged@.len() ==> (#[trigger] tagged@[n]) < i && names_propeller(
                    names@[tagged@[n] as int]@,
                ),
            forall|m: int, n: int|
                0 <= m < n < tagged@.len() ==> #[trigger] tagged@[m] < #[trigger] tagged@[n],
            forall|k: usize|
                k < i && names_propeller(names@[k as int]@) ==> #[trigger] tagged@.contains(k),
        decreases names.len() - i,
    {
        let ghost before = tagged@;
        if is_propeller_name(names[i].as_str()) {
            tagged.push(i);
            proof {
                assert(tagged@[before.len() as int] == i);
                assert forall|k: usize| before.contains(k) implies tagged@.contains(k) by {
                    let n = choose|n: int| 0 <= n < before.len() && before[n] == k;
                    assert(tagged@[n] == k);
                }
            }
        }
        proof {
            assert forall|k: usize| k < i + 1 && names_propeller(names@[k as int]@) implies
                #[trigger] tagged@.contains(k) by {
                assert(k < i ==> before.contains(k));
            }
        }
        i = i + 1;
    }
    tagged
}

/// A propeller goes through a full turn of 2π for each revolution, in proportion to its
/// speed and to the time.
pub proof fn propeller_turns_once_a_revolution(rps: int, dt: int)
    requires
        0 <= rps,
    ensures
        ({
            let angle = turned(rps, dt);
            &&& angle * 1_000_000_000 * 1_000_000_000 <= 6_283_185_307 * dt * rps
            &&& 6_283_185_307 * dt * rps < (angle + 1) * 1_000_000_000 * 1_000_000_000
                + 1_000_000_000 * rps
        }),
{
    let step = scaled(TAU as int, dt);
    chain_of_products(TAU as int, dt, rps);
    assert(rps * step == step * rps) by (nonlinear_arith);
}

/// The stand-in propeller spans its disc's diameter, ten units to the metre; it is
/// 6 % of that wide and 1.5 % thick.
pub proof fn blade_spans_its_disc(radius: int)
    requires
        0 <= radius,
    ensures
        ({
            let (chord, span, thick) = propeller_size(radius);
            &&& span == 10 * (2 * radius)
            &&& 100 * chord <= 6 * span < 100 * chord + 100
            &&& 1000 * thick <= 15 * span < 1000 * thick + 1000
        }),
{
}

/// The incidence lifts a wing's nose: the chord keeps its cosine ahead and rises with
/// its sine, and the normal falls back by its sine. The dihedral leans both wings'
/// normals inward, each by as much as the other.
pub proof fn wings_are_pitched_and_lean_inward(incidence: Turn, dihedral: Turn)
    ensures
        ({
            let (s, c) = (incidence.sin, incidence.cos);
            let l = panel_frame(Panel::Left, incidence, dihedral);
            let r = panel_frame(Panel::Right, incidence, dihedral);
            &&& l.0.2 == c && r.0.2 == c
            &&& l.1.2 == -s && r.1.2 == -s
            &&& r.0.1 * 1_000_000_000 <= s * dihedral.cos < (r.0.1 + 1) * 1_000_000_000
            &&& r.1.1 * 1_000_000_000 <= c * dihedral.cos < (r.1.1 + 1) * 1_000_000_000
            &&& -r.1.0 * 1_000_000_000 <= c * dihedral.sin < (-r.1.0 + 1) * 1_000_000_000
            &&& -r.0.0 * 1_000_000_000 <= s * dihedral.sin < (-r.0.0 + 1) * 1_000_000_000
            &&& (l.1.0 - 1) * 1_000_000_000 < c * dihedral.sin <= l.1.0 * 1_000_000_000
            &&& (l.0.0 - 1) * 1_000_000_000 < s * dihedral.sin <= l.0.0 * 1_000_000_000
        }),
{
    let (s, c) = (incidence.sin as int, incidence.cos as int);
    let (ds, dc) = (dihedral.sin as int, dihedral.cos as int);
    assert(s * (-ds) == -(s * ds)) by (nonlinear_arith);
    assert(c * (-ds) == -(c * ds)) by (nonlinear_arith);
}

/// A level surface lies flat with its normal up; an upright one has its normal to the
/// side. Both look ahead, and span is chord crossed with normal.
pub proof fn tail_surfaces_are_square(incidence: Turn, dihedral: Turn)
    ensures
        ({
            let flat = panel_frame(Panel::Flat, incidence, dihedral);
            let fin = panel_frame(Panel::Upright, incidence, dihedral);
            &&& flat.0 == (0int, 0int, 1_000_000_000int)
            &&& fin.0 == flat.0
            &&& flat.1.1 == 1_000_000_000
            &&& fin.1.1 == 0
            &&& fin.2.1 == 1_000_000_000
            &&& crate::vector::cross(flat.0, flat.1) == flat.2
            &&& crate::vector::cross(fin.0, fin.1) == fin.2
        }),
{
}

/// The dihedral raises a station by its tangent for each metre out, on either side
/// alike.
pub proof fn dihedral_raises_both_sides(x: int, dihedral_tan: int)
    requires
        0 <= x <= 100_000_000_000,
        -100_000_000_000 <= dihedral_tan <= 100_000_000_000,
    ensures
        ({
            let l = wing_station(-x, dihedral_tan);
            let r = wing_station(x, dihedral_tan);
            let root = wing_station(0, dihedral_tan);
            let rise = r.y - root.y;
            &&& l.x == -x && r.x == x
            &&& l.y == r.y && l.z == r.z
            &&& root.y == 10_000_000_000
            &&& rise * 1_000_000_000 <= x * dihedral_tan < (rise + 1) * 1_000_000_000
        }),
{
    product_within(x, dihedral_tan, 100_000_000_000, 100_000_000_000);
    assert(0 * dihedral_tan == 0);
}

/// The aircraft is laid out in mirror: a surface on the left has one on the right like
/// it, but for the ailerons, which move against each other. The ailerons stand twice as
/// far out as the wings; the tail stands on the centreline, behind everything else.
pub proof fn layout_is_mirrored(config: FlightModelConfig, dihedral_tan: int)
    requires
        -100_000_000_000 <= dihedral_tan <= 100_000_000_000,
    ensures
        ({
            let m = mounts_of(config, dihedral_tan);
            let (wing, aileron) = (m[1], m[3]);
            let (elevator, rudder) = (m[6], m[7]);
            &&& m.len() == 8
            &&& forall|k: int|
                0 <= k < 3 ==> {
                    let (l, r) = (#[trigger] m[2 * k], m[2 * k + 1]);
                    &&& l.position.x == -r.position.x && r.position.x > 0
                    &&& l.position.y == r.position.y && l.position.z == r.position.z
                    &&& l.surface.input_type == r.surface.input_type
                    &&& l.surface.config == r.surface.config
                    &&& l.surface.input_multiplier == if k == 1 {
                        -r.surface.input_multiplier
                    } else {
                        r.surface.input_multiplier as int
                    }
                }
            &&& aileron.surface.input_multiplier == 1_000_000_000
            &&& aileron.position.x == 2 * wing.position.x
            &&& elevator.position.x == 0 && rudder.position.x == 0
            &&& elevator.position.z == rudder.position.z
            &&& forall|k: int| 0 <= k < 6 ==> #[trigger] m[k].position.z > 0 > elevator.position.z
            &&& wing.surface.input_type == ControlInputType::Flap
            &&& aileron.surface.input_type == ControlInputType::Roll
            &&& elevator.surface.input_type == ControlInputType::Pitch
            &&& rudder.surface.input_type == ControlInputType::Yaw
            &&& elevator.panel == Panel::Flat && rudder.panel == Panel::Upright
            &&& !m[4].surface.is_control_surface && !m[5].surface.is_control_surface
        }),
{
    dihedral_raises_both_sides(25_000_000_000, dihedral_tan);
    dihedral_raises_both_sides(50_000_000_000, dihedral_tan);
}

}
