//! The two cameras: one that orbits the aircraft and one that flies freely.
//! Angles are in nanoradians, lengths in nanometres, spans in nanoseconds.

use crate::fixed::{clamp, clamped, floor_div, scaled, ONE};
use vstd::prelude::*;

verus! {

/// Resolution of the pixel canvas that the world is rendered to.
pub const PIXEL_WIDTH: u32 = 640;

pub const PIXEL_HEIGHT: u32 = 360;

/// Which camera is active.
#[derive(Clone, Copy, Debug, PartialEq, Eq, Structural)]
pub enum CameraMode {
    Free,
    Orbit,
}

impl Default for CameraMode {
    fn default() -> (mode: Self)
        ensures
            mode == CameraMode::Orbit,
    {
        CameraMode::Orbit
    }
}

/// State of the free-look camera.
#[derive(Clone, Copy, Debug, PartialEq, Eq, Structural)]
pub struct FreeCam {
    pub yaw: i64,
    pub pitch: i64,
}

/// State of the tracking camera.
#[derive(Clone, Copy, Debug, PartialEq, Eq, Structural)]
pub struct TrackCam {
    pub yaw: i64,
    pub pitch: i64,
    /// Orbit radius around the plane.
    pub distance: i64,
}

/// The cameras start level behind the aircraft: the free one looking down a
/// little, the tracking one from slightly above at fifteen metres.
impl Default for FreeCam {
    fn default() -> (cam: Self)
        ensures
            cam == (FreeCam { yaw: 0, pitch: (-300_000_000) as i64 }),
    {
        FreeCam { yaw: 0, pitch: -300_000_000 }
    }
}

impl Default for TrackCam {
    fn default() -> (cam: Self)
        ensures
            cam == (TrackCam { yaw: 0, pitch: 300_000_000, distance: 15_000_000_000 }),
    {
        TrackCam { yaw: 0, pitch: 300_000_000, distance: 15_000_000_000 }
    }
}

/// `n / d` rounded to the nearest integer, halves up.
pub open spec fn rounded(n: int, d: int) -> int {
    (2 * n + d) / (2 * d)
}

/// How many whole screen pixels a canvas pixel takes at the start.
pub open spec fn whole_pixels(width: int, height: int) -> int {
    let w = rounded(width, PIXEL_WIDTH as int);
    let h = rounded(height, PIXEL_HEIGHT as int);
    if w < h {
        w
    } else {
        h
    }
}

/// Projection scale at the start: the inverse of the whole number of screen pixels
/// that a canvas pixel takes; a quarter where there is no window.
pub fn initial_scale(window: Option<(u32, u32)>) -> (scale: i64)
    requires
        window matches Some(w) ==> w.0 >= 320 && w.1 >= 180,
    ensures
        scale == match window {
            Some(w) => ONE as int / whole_pixels(w.0 as int, w.1 as int),
            None => 250_000_000,
        },
{
    match window {
        None => 250_000_000,
        Some((width, height)) => {
            let w: i64 = (2 * width as i64 + 640) / 1280;
            let h: i64 = (2 * height as i64 + 360) / 720;
            let k: i64 = if w < h {
                w
            } else {
                h
            };
            ONE / k
        },
    }
}

/// How many whole screen pixels a canvas pixel takes in a window: as many as fit
/// along both axes, and at least one.
pub open spec fn zoom(width: int, height: int) -> int {
    let w = width / (PIXEL_WIDTH as int);
    let h = height / (PIXEL_HEIGHT as int);
    let k = if w < h {
        w
    } else {
        h
    };
    if k < 1 {
        1
    } else {
        k
    }
}

/// Projection scale for a window of the given size in pixels: the inverse of the
/// whole number of screen pixels that a canvas pixel takes there.
pub fn fit_canvas(width: u32, height: u32) -> (scale: i64)
    ensures
        scale == ONE as int / zoom(width as int, height as int),
{
    let w: i64 = width as i64 / 640;
    let h: i64 = height as i64 / 360;
    let k: i64 = if w < h {
        w
    } else {
        h
    };
    if k < 1 {
        ONE
    } else {
        ONE / k
    }
}

/// The zoomed canvas fits into every window that holds the canvas at all, and the
/// next larger one does not.
pub proof fn canvas_fits_the_window(width: int, height: int)
    requires
        width >= PIXEL_WIDTH,
        height >= PIXEL_HEIGHT,
    ensures
        zoom(width, height) >= 1,
        zoom(width, height) * PIXEL_WIDTH <= width,
        zoom(width, height) * PIXEL_HEIGHT <= height,
        (zoom(width, height) + 1) * PIXEL_WIDTH > width || (zoom(width, height) + 1) * PIXEL_HEIGHT
            > height,
{
}

/// The mode that the toggle key leads to.
pub open spec fn toggled(mode: CameraMode) -> CameraMode {
    match mode {
        CameraMode::Free => CameraMode::Orbit,
        CameraMode::Orbit => CameraMode::Free,
    }
}

/// Switches between the two cameras when the key was pressed. Entering the free
/// camera takes over the current view's yaw and pitch, where there is a view.
pub fn toggle_camera_mode(
    pressed: bool,
    mode: &mut CameraMode,
    view: Option<(i64, i64)>,
    free: &mut FreeCam,
)
    ensures
        *final(mode) == if pressed {
            toggled(*old(mode))
        } else {
            *old(mode)
        },
        *final(free) == match view {
            Some(v) if pressed && *old(mode) == CameraMode::Orbit => FreeCam {
                yaw: v.0,
                pitch: v.1,
            },
            _ => *old(free),
        },
{
    if !pressed {
        return;
    }
    match *mode {
        CameraMode::Free => {
            *mode = CameraMode::Orbit;
        },
        CameraMode::Orbit => {
            if let Some((yaw, pitch)) = view {
                free.yaw = yaw;
                free.pitch = pitch;
            }
            *mode = CameraMode::Free;
        },
    }
}

/// Pressing the toggle twice comes back to the same camera.
pub proof fn toggling_twice_returns(mode: CameraMode)
    ensures
        toggled(toggled(mode)) == mode,
        toggled(mode) != mode,
{
}

/// Look speed of both cameras: 1.5 rad/s.
pub const LOOK_SPEED: i64 = 1_500_000_000;

/// Zoom speed of the orbit radius: 100 m/s.
pub const ZOOM_SPEED: i64 = 100_000_000_000;

/// Keys of the free camera. `shifts` counts the shift keys that are held.
#[derive(Clone, Copy, Debug, PartialEq, Eq, Structural)]
pub struct FreeCamKeys {
    pub look_left: bool,
    pub look_right: bool,
    pub look_up: bool,
    pub look_down: bool,
    pub forward: bool,
    pub back: bool,
    pub left: bool,
    pub right: bool,
    pub up: bool,
    pub down: bool,
    pub shifts: u8,
}

/// One frame of free flight: how far to move, and in which direction along each
/// axis (the camera's forward and right, and straight up).
#[derive(Clone, Copy, Debug, PartialEq, Eq, Structural)]
pub struct FreeMove {
    pub distance: i64,
    pub forward: i8,
    pub right: i8,
    pub up: i8,
}

/// What opposite keys add up to.
pub open spec fn net(plus: bool, minus: bool) -> int {
    (if plus {
        1int
    } else {
        0
    }) - (if minus {
        1int
    } else {
        0
    })
}

/// Flight speed of the free camera: 5 m/s, 300 m/s with one shift key, 2000 m/s
/// with both.
pub open spec fn free_speed(shifts: int) -> int {
    if shifts <= 0 {
        5_000_000_000
    } else if shifts == 1 {
        300_000_000_000
    } else {
        2_000_000_000_000
    }
}

/// An angle after the up key, then the down key: each step stays within `limit`.
pub open spec fn tilted(pitch: int, step: int, up: bool, down: bool, limit: int) -> int {
    let p = if up {
        clamped(pitch + step, -limit, limit)
    } else {
        pitch
    };
    if down {
        clamped(p - step, -limit, limit)
    } else {
        p
    }
}

fn direction(plus: bool, minus: bool) -> (d: i8)
    ensures
        d == net(plus, minus),
{
    if plus == minus {
        0
    } else if plus {
        1
    } else {
        -1
    }
}

/// Change of an angle over a frame.
fn look_step(dt: u64) -> (step: i128)
    ensures
        step == scaled(LOOK_SPEED as int, dt as int),
        0 <= step <= 0x2_0000_0000_0000_0000,
{
    floor_div(1_500_000_000 * (dt as i128), 1_000_000_000)
}

fn tilt(pitch: i64, step: i128, up: bool, down: bool, limit: i64) -> (r: i64)
    requires
        0 <= step <= 0x2_0000_0000_0000_0000,
        0 <= limit,
    ensures
        r == tilted(pitch as int, step as int, up, down, limit as int),
{
    let p: i64 = if up {
        clamp(pitch as i128 + step, -limit, limit)
    } else {
        pitch
    };
    if down {
        clamp(p as i128 - step, -limit, limit)
    } else {
        p
    }
}

/// How the free camera moves in a frame by its keys.
pub open spec fn moves_free(m: FreeMove, keys: FreeCamKeys, dt: int) -> bool {
    &&& m.distance == scaled(free_speed(keys.shifts as int), dt)
    &&& m.forward == net(keys.forward, keys.back)
    &&& m.right == net(keys.right, keys.left)
    &&& m.up == net(keys.up, keys.down)
}

/// Where the free camera looks after a frame.
pub open spec fn looks_free(after: FreeCam, cam: FreeCam, keys: FreeCamKeys, dt: int) -> bool {
    let step = scaled(LOOK_SPEED as int, dt);
    &&& after.yaw == cam.yaw + net(keys.look_left, keys.look_right) * step
    &&& after.pitch == tilted(
        cam.pitch as int,
        step,
        keys.look_up,
        keys.look_down,
        1_500_000_000,
    )
}

/// Free-look camera: accumulates yaw and pitch from the look keys and says how
/// the camera moves. Yaw is unbounded so one can spin freely; pitch stops just
/// short of straight up and down. Idle unless the free camera is active.
pub fn free_cam_control(mode: CameraMode, keys: &FreeCamKeys, dt: u64, cam: &mut FreeCam) -> (r:
    Option<FreeMove>)
    requires
        i64::MIN <= old(cam).yaw - scaled(LOOK_SPEED as int, dt as int),
        old(cam).yaw + scaled(LOOK_SPEED as int, dt as int) <= i64::MAX,
        scaled(2_000_000_000_000, dt as int) <= i64::MAX,
    ensures
        match mode {
            CameraMode::Orbit => r is None && *final(cam) == *old(cam),
            CameraMode::Free => {
                &&& r matches Some(m)
                &&& moves_free(m, *keys, dt as int)
                &&& looks_free(*final(cam), *old(cam), *keys, dt as int)
            },
        },
{
    match mode {
        CameraMode::Orbit => {
            return None;
        },
        CameraMode::Free => {},
    }
    let step: i128 = look_step(dt);
    let turn: i8 = direction(keys.look_left, keys.look_right);
    if turn > 0 {
        cam.yaw = (cam.yaw as i128 + step) as i64;
    } else if turn < 0 {
        cam.yaw = (cam.yaw as i128 - step) as i64;
    }
    cam.pitch = tilt(cam.pitch, step, keys.look_up, keys.look_down, 1_500_000_000);
    let speed: i128 = if keys.shifts == 0 {
        5_000_000_000
    } else if keys.shifts == 1 {
        300_000_000_000
    } else {
        2_000_000_000_000
    };
    proof {
        let d = dt as int;
        let s = speed as int;
        assert(0 <= s * d <= 2_000_000_000_000 * d) by (nonlinear_arith)
            requires
                0 <= s <= 2_000_000_000_000,
                0 <= d,
        ;
        assert(2_000_000_000_000 * d <= 40_000_000_000_000_000_000_000_000_000_000);
    }
    Some(
        FreeMove {
            distance: floor_div(speed * (dt as i128), 1_000_000_000) as i64,
            forward: direction(keys.forward, keys.back),
            right: direction(keys.right, keys.left),
            up: direction(keys.up, keys.down),
        },
    )
}

/// Keys of the orbit camera.
#[derive(Clone, Copy, Debug, PartialEq, Eq, Structural)]
pub struct TrackCamKeys {
    pub zoom_in: bool,
    pub zoom_out: bool,
    pub look_left: bool,
    pub look_right: bool,
    pub look_up: bool,
    pub look_down: bool,
}

/// The orbit radius after the zoom-in key, then the zoom-out key: each step stays
/// between 3 m and 100 m.
pub open spec fn zoomed(distance: int, step: int, zoom_in: bool, zoom_out: bool) -> int {
    let d = if zoom_in {
        clamped(distance - step, 3_000_000_000, 100_000_000_000)
    } else {
        distance
    };
    if zoom_out {
        clamped(d + step, 3_000_000_000, 100_000_000_000)
    } else {
        d
    }
}

/// Where the orbit camera is after a frame.
pub open spec fn orbits(after: TrackCam, track: TrackCam, keys: TrackCamKeys, dt: int) -> bool {
    let step = scaled(LOOK_SPEED as int, dt);
    &&& after.distance == zoomed(
        track.distance as int,
        scaled(ZOOM_SPEED as int, dt),
        keys.zoom_in,
        keys.zoom_out,
    )
    &&& after.yaw == track.yaw + net(keys.look_left, keys.look_right) * step
    &&& after.pitch == tilted(
        track.pitch as int,
        step,
        keys.look_up,
        keys.look_down,
        1_400_000_000,
    )
}

/// Orbit camera: zooms the radius and swings around the plane. Pitch stops just
/// short of straight up and down. Idle while the free camera is active.
pub fn track_cam_control(mode: CameraMode, keys: &TrackCamKeys, dt: u64, track: &mut TrackCam)
    requires
        i64::MIN <= old(track).yaw - scaled(LOOK_SPEED as int, dt as int),
        old(track).yaw + scaled(LOOK_SPEED as int, dt as int) <= i64::MAX,
    ensures
        match mode {
            CameraMode::Free => *final(track) == *old(track),
            CameraMode::Orbit => orbits(*final(track), *old(track), *keys, dt as int),
        },
{
    match mode {
        CameraMode::Free => {
            return;
        },
        CameraMode::Orbit => {},
    }
    let zoom: i128 = floor_div(100_000_000_000 * (dt as i128), 1_000_000_000);
    if keys.zoom_in {
        track.distance = clamp(track.distance as i128 - zoom, 3_000_000_000, 100_000_000_000);
    }
    if keys.zoom_out {
        track.distance = clamp(track.distance as i128 + zoom, 3_000_000_000, 100_000_000_000);
    }
    let step: i128 = look_step(dt);
    let turn: i8 = direction(keys.look_left, keys.look_right);
    if turn > 0 {
        track.yaw = (track.yaw as i128 + step) as i64;
    } else if turn < 0 {
        track.yaw = (track.yaw as i128 - step) as i64;
    }
    track.pitch = tilt(track.pitch, step, keys.look_up, keys.look_down, 1_400_000_000);
}

/// Once within its limits, neither camera's pitch nor the orbit radius leaves
/// them.
pub proof fn camera_limits_hold(
    angle: int,
    distance: int,
    step: int,
    plus: bool,
    minus: bool,
    limit: int,
)
    requires
        -limit <= angle <= limit,
        3_000_000_000 <= distance <= 100_000_000_000,
    ensures
        -limit <= tilted(angle, step, plus, minus, limit) <= limit,
        3_000_000_000 <= zoomed(distance, step, plus, minus) <= 100_000_000_000,
{
}

}
