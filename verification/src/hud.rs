//! The debug overlay: the lines it shows and the frame counter. Quantities have
//! nine decimals; angles are in nanoradians.

use crate::angle::{degrees, to_degrees};
use crate::camera::CameraMode;
use crate::fixed::{scale, scaled};
use crate::physics::aircraft_physics::{AircraftRoot, EngineState};
use crate::plane::PlaneState;
use crate::text::{push_rounded, rounded_text};
use crate::vector::Vec3;
use vstd::prelude::*;
use vstd::string::StringExecFns;

verus! {

/// One line of the overlay, shown as label and value.
#[derive(Debug)]
pub struct HudEntry {
    pub label: &'static str,
    pub value: String,
}

/// The overlay. Its entries are made anew each frame, so no stale values
/// accumulate.
#[derive(Debug)]
pub struct DebugHud {
    pub entries: Vec<HudEntry>,
}

/// A line as text: label and value.
pub type Line = (Seq<char>, Seq<char>);

/// The lines that a list of entries shows.
pub open spec fn lines(entries: Seq<HudEntry>) -> Seq<Line> {
    entries.map_values(|e: HudEntry| (e.label@, e.value@))
}

/// Knots in one metre per second.
pub const MS_TO_KT: i64 = 1_943_844_000;

/// What the aircraft contributes to the overlay.
#[derive(Clone, Copy, Debug, PartialEq, Eq, Structural)]
pub struct PlaneReadout {
    pub altitude: i64,
    pub state: PlaneState,
    pub root: AircraftRoot,
}

/// A number and what follows it.
pub open spec fn with_unit(v: int, places: nat, unit: &str) -> Seq<char> {
    rounded_text(v, places) + unit@
}

/// The lines on the camera and the fog, and on where the camera is.
pub open spec fn view_lines(mode: CameraMode, fog: bool, camera: Option<Vec3>) -> Seq<Line> {
    let first = seq![
        (
            "CAM"@,
            match mode {
                CameraMode::Free => "FREE"@,
                CameraMode::Orbit => "ORBIT"@,
            },
        ),
        (
            "FOG"@,
            if fog {
                "ON\t [1]"@
            } else {
                "OFF \t[1]"@
            },
        ),
    ];
    match camera {
        Some(p) => first.push(
            (
                "POS"@,
                "X="@ + rounded_text(p.x as int, 1) + "  Y="@ + rounded_text(p.y as int, 1)
                    + "  Z="@ + rounded_text(p.z as int, 1),
            ),
        ),
        None => first,
    }
}

/// The lines on the motion of the aircraft; a wreck says so.
pub open spec fn motion_lines(plane: PlaneReadout) -> Seq<Line> {
    let s = plane.state;
    let moving = seq![
        ("SPD"@, with_unit(s.speed as int, 1, " m/s")),
        ("KTS"@, with_unit(scaled(s.speed as int, MS_TO_KT as int), 1, " kt")),
        ("ALT"@, with_unit(plane.altitude as int, 1, " m")),
        (
            "GND"@,
            if s.on_ground {
                "ON GROUND"@
            } else {
                "AIRBORNE"@
            },
        ),
    ];
    if s.crashed {
        moving.push(("STATUS"@, "CRASHED"@))
    } else {
        moving
    }
}

/// The lines on engine, levers and brakes.
pub open spec fn lever_lines(plane: PlaneReadout) -> Seq<Line> {
    let r = plane.root;
    seq![
        (
            "ENGINE"@,
            match r.engine_state {
                EngineState::Off => "OFF  \t[I]"@,
                EngineState::Cranking => "CRANKING..."@,
                EngineState::Running => "RUNNING"@,
            },
        ),
        ("MIXTURE"@, with_unit(r.mixture * 100, 0, "%\t[K/L]")),
        ("THROTTLE"@, with_unit(r.throttle_percent * 100, 0, "%\t[-/+]")),
        ("FLAPS"@, with_unit(degrees(r.flap_setting as int), 0, "     \t[</>]")),
        (
            "BRK"@,
            if plane.state.braking {
                "ON  \t[B]"@
            } else {
                "OFF \t[B]"@
            },
        ),
        ("RPM"@, rounded_text(r.engine_rps * 60, 0)),
    ]
}

/// The lines on the forces.
pub open spec fn force_lines(plane: PlaneReadout) -> Seq<Line> {
    let s = plane.state;
    seq![
        ("LIFT"@, with_unit(s.lift_pct * 100, 0, "%")),
        ("THRUST"@, with_unit(s.thrust as int, 0, " N")),
        ("DRAG"@, with_unit(s.drag as int, 0, " N")),
        ("  SURFACE"@, with_unit(s.drag_surface as int, 0, " N")),
        ("  FUSELAGE"@, with_unit(s.drag_fuselage as int, 0, " N")),
    ]
}

/// All lines of a frame.
pub open spec fn hud_lines(
    mode: CameraMode,
    fog: bool,
    camera: Option<Vec3>,
    plane: Option<PlaneReadout>,
) -> Seq<Line> {
    let view = view_lines(mode, fog, camera);
    match plane {
        Some(p) => view + motion_lines(p) + lever_lines(p) + force_lines(p),
        None => view,
    }
}

fn push_entry(entries: &mut Vec<HudEntry>, label: &'static str, value: String)
    ensures
        lines(final(entries)@) == lines(old(entries)@).push((label@, value@)),
{
    entries.push(HudEntry { label, value });
    assert(lines(entries@) =~= lines(old(entries)@).push((label@, value@)));
}

fn push_text(entries: &mut Vec<HudEntry>, label: &'static str, value: &str)
    ensures
        lines(final(entries)@) == lines(old(entries)@).push((label@, value@)),
{
    push_entry(entries, label, String::from_str(value));
}

/// A number with `places` decimals and what follows it.
fn number_text(v: i128, places: u32, unit: &str) -> (text: String)
    requires
        v > i128::MIN,
        places <= 9,
    ensures
        text@ == with_unit(v as int, places as nat, unit),
{
    let mut s: String = String::new();
    push_rounded(&mut s, v, places);
    s.append(unit);
    assert(s@ =~= with_unit(v as int, places as nat, unit));
    s
}

fn push_view(
    entries: &mut Vec<HudEntry>,
    mode: CameraMode,
    fog: bool,
    camera: Option<Vec3>,
)
    ensures
        lines(final(entries)@) == lines(old(entries)@) + view_lines(mode, fog, camera),
{
    let cam: &str = match mode {
        CameraMode::Free => "FREE",
        CameraMode::Orbit => "ORBIT",
    };
    push_text(entries, "CAM", cam);
    push_text(
        entries,
        "FOG",
        if fog {
            "ON\t [1]"
        } else {
            "OFF \t[1]"
        },
    );
    if let Some(p) = camera {
        let mut s: String = String::from_str("X=");
        push_rounded(&mut s, p.x as i128, 1);
        s.append("  Y=");
        push_rounded(&mut s, p.y as i128, 1);
        s.append("  Z=");
        push_rounded(&mut s, p.z as i128, 1);
        push_entry(entries, "POS", s);
    }
    assert(lines(entries@) =~= lines(old(entries)@) + view_lines(mode, fog, camera));
}

fn push_motion(entries: &mut Vec<HudEntry>, plane: &PlaneReadout)
    ensures
        lines(final(entries)@) == lines(old(entries)@) + motion_lines(*plane),
{
    let s: PlaneState = plane.state;
    push_entry(entries, "SPD", number_text(s.speed as i128, 1, " m/s"));
    push_entry(entries, "KTS", number_text(scale(s.speed, MS_TO_KT), 1, " kt"));
    push_entry(entries, "ALT", number_text(plane.altitude as i128, 1, " m"));
    push_text(
        entries,
        "GND",
        if s.on_ground {
            "ON GROUND"
        } else {
            "AIRBORNE"
        },
    );
    if s.crashed {
        push_text(entries, "STATUS", "CRASHED");
    }
    assert(lines(entries@) =~= lines(old(entries)@) + motion_lines(*plane));
}

fn push_levers(entries: &mut Vec<HudEntry>, plane: &PlaneReadout)
    ensures
        lines(final(entries)@) == lines(old(entries)@) + lever_lines(*plane),
{
    let r: AircraftRoot = plane.root;
    let engine: &str = match r.engine_state {
        EngineState::Off => "OFF  \t[I]",
        EngineState::Cranking => "CRANKING...",
        EngineState::Running => "RUNNING",
    };
    push_text(entries, "ENGINE", engine);
    push_entry(entries, "MIXTURE", number_text(r.mixture as i128 * 100, 0, "%\t[K/L]"));
    push_entry(entries, "THROTTLE", number_text(r.throttle_percent as i128 * 100, 0, "%\t[-/+]"));
    push_entry(entries, "FLAPS", number_text(to_degrees(r.flap_setting), 0, "     \t[</>]"));
    push_text(
        entries,
        "BRK",
        if plane.state.braking {
            "ON  \t[B]"
        } else {
            "OFF \t[B]"
        },
    );
    let mut rpm: String = String::new();
    push_rounded(&mut rpm, r.engine_rps as i128 * 60, 0);
    assert(rpm@ =~= rounded_text(r.engine_rps * 60, 0));
    push_entry(entries, "RPM", rpm);
    assert(lines(entries@) =~= lines(old(entries)@) + lever_lines(*plane));
}

fn push_forces(entries: &mut Vec<HudEntry>, plane: &PlaneReadout)
    ensures
        lines(final(entries)@) == lines(old(entries)@) + force_lines(*plane),
{
    let s: PlaneState = plane.state;
    push_entry(entries, "LIFT", number_text(s.lift_pct as i128 * 100, 0, "%"));
    push_entry(entries, "THRUST", number_text(s.thrust as i128, 0, " N"));
    push_entry(entries, "DRAG", number_text(s.drag as i128, 0, " N"));
    push_entry(entries, "  SURFACE", number_text(s.drag_surface as i128, 0, " N"));
    push_entry(entries, "  FUSELAGE", number_text(s.drag_fuselage as i128, 0, " N"));
    assert(lines(entries@) =~= lines(old(entries)@) + force_lines(*plane));
}

/// Fills the overlay for a frame: camera and fog, where the camera is, and the
/// readings of the aircraft, each where there is one. What it held before is
/// gone.
pub fn populate_debug_hud(
    hud: &mut DebugHud,
    mode: CameraMode,
    fog: bool,
    camera: Option<Vec3>,
    plane: Option<PlaneReadout>,
)
    ensures
        lines(final(hud).entries@) == hud_lines(mode, fog, camera, plane),
{
    let mut entries: Vec<HudEntry> = Vec::new();
    assert(lines(entries@) =~= Seq::<Line>::empty());
    push_view(&mut entries, mode, fog, camera);
    assert(lines(entries@) =~= view_lines(mode, fog, camera));
    if let Some(p) = plane {
        push_motion(&mut entries, &p);
        push_levers(&mut entries, &p);
        push_forces(&mut entries, &p);
    }
    hud.entries = entries;
}

/// The frame counter's text follows the measured rate; without a measurement it
/// stays.
pub fn update_fps(text: &mut String, fps: Option<i64>)
    ensures
        match fps {
            Some(v) => final(text)@ == "FPS: "@ + rounded_text(v as int, 0),
            None => final(text)@ == old(text)@,
        },
{
    if let Some(v) = fps {
        let mut s: String = String::from_str("FPS: ");
        push_rounded(&mut s, v as i128, 0);
        *text = s;
    }
}

/// The overlay shows the aircraft's speed in metres per second and in knots, its height
/// in metres and its engine in revolutions per minute.
pub proof fn overlay_shows_the_motion(
    mode: CameraMode,
    fog: bool,
    camera: Option<Vec3>,
    p: PlaneReadout,
    knots: int,
)
    requires
        knots * 1_000_000_000 <= p.state.speed * 1_943_844_000 < (knots + 1) * 1_000_000_000,
    ensures
        ({
            let shown = hud_lines(mode, fog, camera, Some(p));
            &&& shown.contains(("SPD"@, rounded_text(p.state.speed as int, 1) + " m/s"@))
            &&& shown.contains(("KTS"@, rounded_text(knots, 1) + " kt"@))
            &&& shown.contains(("ALT"@, rounded_text(p.altitude as int, 1) + " m"@))
            &&& shown.contains(("RPM"@, rounded_text(p.root.engine_rps * 60, 0)))
            &&& p.state.crashed ==> shown.contains(("STATUS"@, "CRASHED"@))
            &&& shown.contains(
                (
                    "GND"@,
                    if p.state.on_ground {
                        "ON GROUND"@
                    } else {
                        "AIRBORNE"@
                    },
                ),
            )
        }),
{
    let view = view_lines(mode, fog, camera);
    let (motion, levers, forces) = (motion_lines(p), lever_lines(p), force_lines(p));
    let shown = hud_lines(mode, fog, camera, Some(p));
    assert(knots == scaled(p.state.speed as int, 1_943_844_000));
    assert forall|i: int| 0 <= i < motion.len() implies shown.contains(#[trigger] motion[i]) by {
        assert(shown[view.len() + i] == motion[i]);
    }
    assert(motion[0].0 == "SPD"@);
    assert(motion[1].0 == "KTS"@);
    assert(motion[2].0 == "ALT"@);
    assert(motion[3].0 == "GND"@);
    assert(p.state.crashed ==> motion[4].0 == "STATUS"@);
    let start = (view.len() + motion.len()) as int;
    assert(shown[start + 5] == levers[5]);
    assert(levers[5].0 == "RPM"@);
}

/// The overlay shows levers and lift as percentages, and the forces in newtons.
pub proof fn overlay_shows_levers_and_forces(
    mode: CameraMode,
    fog: bool,
    camera: Option<Vec3>,
    p: PlaneReadout,
)
    ensures
        ({
            let shown = hud_lines(mode, fog, camera, Some(p));
            &&& shown.contains(("MIXTURE"@, rounded_text(p.root.mixture * 100, 0) + "%\t[K/L]"@))
            &&& shown.contains(
                ("THROTTLE"@, rounded_text(p.root.throttle_percent * 100, 0) + "%\t[-/+]"@),
            )
            &&& shown.contains(("LIFT"@, rounded_text(p.state.lift_pct * 100, 0) + "%"@))
            &&& shown.contains(("THRUST"@, rounded_text(p.state.thrust as int, 0) + " N"@))
            &&& shown.contains(("DRAG"@, rounded_text(p.state.drag as int, 0) + " N"@))
            &&& shown.contains(
                ("  SURFACE"@, rounded_text(p.state.drag_surface as int, 0) + " N"@),
            )
            &&& shown.contains(
                ("  FUSELAGE"@, rounded_text(p.state.drag_fuselage as int, 0) + " N"@),
            )
        }),
{
    let view = view_lines(mode, fog, camera);
    let (motion, levers, forces) = (motion_lines(p), lever_lines(p), force_lines(p));
    let shown = hud_lines(mode, fog, camera, Some(p));
    let start = (view.len() + motion.len()) as int;
    assert(shown[start + 1] == levers[1] && levers[1].0 == "MIXTURE"@);
    assert(shown[start + 2] == levers[2] && levers[2].0 == "THROTTLE"@);
    assert forall|i: int| 0 <= i < forces.len() implies shown.contains(#[trigger] forces[i]) by {
        assert(shown[start + levers.len() + i] == forces[i]);
    }
    assert(forces[0].0 == "LIFT"@);
    assert(forces[1].0 == "THRUST"@);
    assert(forces[2].0 == "DRAG"@);
    assert(forces[3].0 == "  SURFACE"@);
    assert(forces[4].0 == "  FUSELAGE"@);
}

}
