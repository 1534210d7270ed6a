//! What cameras, lights and labels do: laws over frames, distances and keys.

use crate::camera::{
    looks_free, moves_free, net, orbits, rounded, whole_pixels, FreeCam, FreeCamKeys, FreeMove,
    TrackCam, TrackCamKeys,
};
use crate::fixed::{root_exists, scaled, ONE};
use crate::lights::{beacons, in_metres, light_of, mount_of, pulse, strobes, LightKind, LightTimers};
use crate::physics::aircraft_physics::EngineState;
use crate::physics::flight_config::LightsConfig;
use crate::text::rounded_text;
use crate::waypoints::{
    cell_sum, ground_distance, in_window, is_average, is_waypoint, label_opacity, shown_opacity,
    SlabSite, Waypoint,
};
use vstd::prelude::*;

verus! {

/// A canvas pixel takes the number of screen pixels nearest to what fits, along the
/// tighter axis.
pub proof fn canvas_starts_at_the_nearest_whole_zoom(width: int, height: int)
    requires
        0 <= width,
        0 <= height,
    ensures
        ({
            let k = whole_pixels(width, height);
            &&& 2 * k * 640 <= 2 * width + 640
            &&& 2 * k * 360 <= 2 * height + 360
            &&& 2 * (k + 1) * 640 > 2 * width + 640 || 2 * (k + 1) * 360 > 2 * height + 360
        }),
{
    lemma_quotient(2 * width + 640, 1280);
    lemma_quotient(2 * height + 360, 720);
    assert(rounded(width, 640) == (2 * width + 640) / 1280);
    assert(rounded(height, 360) == (2 * height + 360) / 720);
}

proof fn lemma_net(plus: bool, minus: bool, step: int)
    ensures
        plus == minus ==> net(plus, minus) * step == 0,
        plus && !minus ==> net(plus, minus) * step == step,
        minus && !plus ==> net(plus, minus) * step == -step,
{
    let n = net(plus, minus);
    assert((n == 0 ==> n * step == 0) && (n == 1 ==> n * step == step) && (n == -1 ==> n * step
        == -step)) by (nonlinear_arith);
}

/// The free camera turns left and right at 1.5 radians a second without a stop, and looks up
/// and down as fast until just short of the vertical; let go, it stays.
pub proof fn free_camera_looks_around(after: FreeCam, cam: FreeCam, keys: FreeCamKeys, dt: int)
    requires
        looks_free(after, cam, keys, dt),
        0 <= dt,
        -1_500_000_000 <= cam.pitch <= 1_500_000_000,
    ensures
        ({
            let turned = after.yaw - cam.yaw;
            let raised = after.pitch - cam.pitch;
            &&& keys.look_left == keys.look_right ==> turned == 0
            &&& keys.look_left && !keys.look_right ==> 2 * turned <= 3 * dt < 2 * (turned + 1)
            &&& keys.look_right && !keys.look_left ==> 2 * -turned <= 3 * dt < 2 * (1 - turned)
            &&& !keys.look_up && !keys.look_down ==> raised == 0
            &&& keys.look_up && !keys.look_down && after.pitch < 1_500_000_000 ==> 2 * raised <= 3
                * dt < 2 * (raised + 1)
            &&& keys.look_down && !keys.look_up && after.pitch > -1_500_000_000 ==> 2 * -raised <= 3
                * dt < 2 * (1 - raised)
            &&& keys.look_up && !keys.look_down ==> raised >= 0
            &&& keys.look_down && !keys.look_up ==> raised <= 0
            &&& -1_500_000_000 <= after.pitch <= 1_500_000_000
        }),
{
    lemma_net(keys.look_left, keys.look_right, scaled(1_500_000_000, dt));
}

/// The free camera flies 5 m a second, 300 with one shift key and 2000 with both, toward the
/// keys that are held.
pub proof fn free_camera_flies_by_its_keys(m: FreeMove, keys: FreeCamKeys, dt: int)
    requires
        moves_free(m, keys, dt),
    ensures
        keys.shifts == 0 ==> m.distance == 5 * dt,
        keys.shifts == 1 ==> m.distance == 300 * dt,
        keys.shifts >= 2 ==> m.distance == 2000 * dt,
        keys.forward && !keys.back ==> m.forward == 1,
        keys.back && !keys.forward ==> m.forward == -1,
        keys.forward == keys.back ==> m.forward == 0,
        keys.right && !keys.left ==> m.right == 1,
        keys.left && !keys.right ==> m.right == -1,
        keys.right == keys.left ==> m.right == 0,
        keys.up && !keys.down ==> m.up == 1,
        keys.down && !keys.up ==> m.up == -1,
        keys.up == keys.down ==> m.up == 0,
{
}

/// The orbit camera swings at 1.5 radians a second and zooms at 100 m a second, in by one key
/// and out by the other, between 3 and 100 m; let go, it stays.
pub proof fn orbit_camera_swings_and_zooms(
    after: TrackCam,
    track: TrackCam,
    keys: TrackCamKeys,
    dt: int,
)
    requires
        orbits(after, track, keys, dt),
        0 <= dt,
        -1_400_000_000 <= track.pitch <= 1_400_000_000,
        3_000_000_000 <= track.distance <= 100_000_000_000,
    ensures
        ({
            let turned = after.yaw - track.yaw;
            let raised = after.pitch - track.pitch;
            let out = after.distance - track.distance;
            &&& keys.look_left == keys.look_right ==> turned == 0
            &&& keys.look_left && !keys.look_right ==> 2 * turned <= 3 * dt < 2 * (turned + 1)
            &&& keys.look_right && !keys.look_left ==> 2 * -turned <= 3 * dt < 2 * (1 - turned)
            &&& !keys.look_up && !keys.look_down ==> raised == 0
            &&& keys.look_up && !keys.look_down && after.pitch < 1_400_000_000 ==> 2 * raised <= 3
                * dt < 2 * (raised + 1)
            &&& keys.look_down && !keys.look_up && after.pitch > -1_400_000_000 ==> 2 * -raised <= 3
                * dt < 2 * (1 - raised)
            &&& !keys.zoom_in && !keys.zoom_out ==> out == 0
            &&& keys.zoom_out && !keys.zoom_in && after.distance < 100_000_000_000 ==> out == 100
                * dt
            &&& keys.zoom_in && !keys.zoom_out && after.distance > 3_000_000_000 ==> out == -100
                * dt
            &&& keys.zoom_out && !keys.zoom_in ==> out >= 0
            &&& keys.zoom_in && !keys.zoom_out ==> out <= 0
            &&& 3_000_000_000 <= after.distance <= 100_000_000_000
            &&& -1_400_000_000 <= after.pitch <= 1_400_000_000
        }),
{
    lemma_net(keys.look_left, keys.look_right, scaled(1_500_000_000, dt));
}

/// A strobe flashes at its full brightness for its on-time at the start of each period and
/// is dark for the rest; its clock runs with the time and starts over with each period.
pub proof fn strobes_flash_once_a_period(
    after: LightTimers,
    intensity: int,
    config: LightsConfig,
    timers: LightTimers,
    dt: int,
)
    requires
        strobes(after, intensity, config, timers, dt),
        config.strobe_period > 0,
        timers.strobe_t < config.strobe_period,
        0 <= dt,
    ensures
        after.strobe_t < config.strobe_period,
        timers.strobe_t + dt < config.strobe_period ==> after.strobe_t == timers.strobe_t + dt,
        config.strobe_period <= timers.strobe_t + dt < 2 * config.strobe_period ==> after.strobe_t
            == timers.strobe_t + dt - config.strobe_period,
        after.strobe_t < config.strobe_on_time ==> intensity == config.strobe_intensity,
        after.strobe_t >= config.strobe_on_time ==> intensity == 0,
        after.beacon_t == timers.beacon_t,
        after.landing_light_on == timers.landing_light_on,
{
    let p = config.strobe_period as int;
    let t = timers.strobe_t + dt;
    if t < p {
        vstd::arithmetic::div_mod::lemma_small_mod(t as nat, p as nat);
    } else if t < 2 * p {
        vstd::arithmetic::div_mod::lemma_fundamental_div_mod_converse(t, p, 1, t - p);
    }
    vstd::arithmetic::div_mod::lemma_mod_bound(t, p);
}

/// The beacon turns over once a period while the engine turns, by itself or by the starter,
/// and rests while it does not.
pub proof fn beacons_turn_with_the_engine(
    after: LightTimers,
    phase: Option<i64>,
    config: LightsConfig,
    timers: LightTimers,
    state: EngineState,
    dt: int,
)
    requires
        beacons(after, phase, config, timers, state, dt),
        config.beacon_period > 0,
        timers.beacon_t < config.beacon_period,
        0 <= dt,
    ensures
        phase is Some <==> state != EngineState::Off,
        state == EngineState::Off ==> after == timers,
        state != EngineState::Off && timers.beacon_t + dt < config.beacon_period ==> after.beacon_t
            == timers.beacon_t + dt,
        state != EngineState::Off ==> after.strobe_t == timers.strobe_t,
        phase matches Some(p) ==> p * config.beacon_period <= after.beacon_t * ONE < (p + 1)
            * config.beacon_period,
{
    let d = config.beacon_period as int;
    let t = timers.beacon_t + dt;
    if t < d {
        vstd::arithmetic::div_mod::lemma_small_mod(t as nat, d as nat);
    }
    let n = after.beacon_t * ONE;
    vstd::arithmetic::div_mod::lemma_fundamental_div_mod(n, d);
    let q = n / d;
    let r = n % d;
    assert(q * d <= n < (q + 1) * d) by (nonlinear_arith)
        requires
            n == d * q + r,
            0 <= r < d,
    ;
}

/// The beacon's pulse is full at its crest, dark at its trough, an eighth half way, and never
/// dimmer nearer to the crest.
pub proof fn beacons_pulse(low: int, high: int, intensity: int)
    requires
        -ONE <= low <= high <= ONE,
        0 <= intensity,
    ensures
        pulse(ONE as int, intensity) == intensity,
        pulse(-ONE as int, intensity) == 0,
        8 * pulse(0, intensity) <= intensity < 8 * (pulse(0, intensity) + 1),
        pulse(low, intensity) <= pulse(high, intensity),
{
    let (a, b) = ((low + ONE) / 2, (high + ONE) / 2);
    assert(0 <= a <= b);
    assert(a * a <= b * b && 0 <= a * a) by (nonlinear_arith)
        requires
            0 <= a <= b,
    ;
    let (p, q) = (scaled(a, a), scaled(b, b));
    assert(p * a <= q * b && 0 <= p * a) by (nonlinear_arith)
        requires
            0 <= p <= q,
            0 <= a <= b,
    ;
    let (u, v) = (scaled(p, a), scaled(q, b));
    assert(u * intensity <= v * intensity) by (nonlinear_arith)
        requires
            u <= v,
            0 <= intensity,
    ;
    assert(0 * intensity == 0);
    let one = ONE as int;
    assert((one + ONE) / 2 == one && scaled(one, one) == one);
    assert((-one + ONE) / 2 == 0 && scaled(0, 0) == 0);
    assert((0 + ONE) / 2 == 500_000_000int && scaled(500_000_000, 500_000_000) == 250_000_000);
    assert(scaled(250_000_000, 500_000_000) == 125_000_000);
}

/// The left navigation light is red, the right one green and the tail's white, all at the
/// configured brightness; every other light starts dark. Each hangs at its own mount.
pub proof fn navigation_lights_tell_the_side(c: LightsConfig)
    ensures
        ({
            let left = light_of(c, LightKind::NavLeft);
            let right = light_of(c, LightKind::NavRight);
            let tail = light_of(c, LightKind::NavTail);
            &&& left.colour.r > left.colour.g && left.colour.r > left.colour.b
            &&& right.colour.g > right.colour.r && right.colour.g > right.colour.b
            &&& tail.colour.r == tail.colour.g == tail.colour.b
            &&& left.intensity == c.nav_intensity
            &&& right.intensity == c.nav_intensity
            &&& tail.intensity == c.nav_intensity
            &&& left.position == in_metres(c.nav_left_pos)
            &&& right.position == in_metres(c.nav_right_pos)
            &&& tail.position == in_metres(c.nav_tail_pos)
        }),
        forall|k: LightKind|
            !(k is NavLeft || k is NavRight || k is NavTail) ==> (#[trigger] light_of(
                c,
                k,
            )).intensity == 0,
        mount_of(c, LightKind::StrobeLeft) == c.strobe_left_pos,
        mount_of(c, LightKind::StrobeRight) == c.strobe_right_pos,
        mount_of(c, LightKind::StrobeTail) == c.strobe_tail_pos,
        mount_of(c, LightKind::Beacon) == c.beacon_pos,
        mount_of(c, LightKind::Landing) == c.landing_pos,
{
}

/// Labels are opaque up to 30 km and fade evenly to nothing at 120 km; within 2 km, and once
/// all but gone, they are not shown.
pub proof fn labels_fade_evenly(distance: int)
    ensures
        distance <= 30_000_000_000_000 ==> label_opacity(distance) == ONE,
        distance >= 120_000_000_000_000 ==> label_opacity(distance) == 0,
        30_000_000_000_000 <= distance <= 120_000_000_000_000 ==> {
            let lost = ONE - label_opacity(distance);
            lost * 90_000 <= distance - 30_000_000_000_000 < (lost + 1) * 90_000
        },
        shown_opacity(distance) is Some <==> distance >= 2_000_000_000_000 && label_opacity(
            distance,
        ) > 10_000_000,
        shown_opacity(distance) matches Some(o) ==> o == label_opacity(distance),
{
}

/// The distance over the ground is by Pythagoras, and the same both ways.
pub proof fn ground_distance_is_straight(ax: int, az: int, bx: int, bz: int)
    ensures
        ({
            let d = ground_distance(ax, az, bx, bz);
            let (dx, dz) = (bx - ax, bz - az);
            0 <= d && d * d <= dx * dx + dz * dz < (d + 1) * (d + 1)
        }),
        ground_distance(ax, az, bx, bz) == ground_distance(bx, bz, ax, az),
{
    let (dx, dz) = (bx - ax, bz - az);
    assert((ax - bx) * (ax - bx) == dx * dx && (az - bz) * (az - bz) == dz * dz)
        by (nonlinear_arith)
        requires
            dx == bx - ax,
            dz == bz - az,
    ;
    assert(dx * dx + dz * dz >= 0) by (nonlinear_arith);
    root_exists(dx * dx + dz * dz);
}

/// An airport of one strip has its stalk there; its base stands two metres over the strip
/// and its tip a kilometre, straight above each other.
pub proof fn stalks_stand_on_their_strip(
    w: Waypoint,
    seed: u32,
    slab: SlabSite,
    x: int,
    z: int,
)
    requires
        is_waypoint(w, seed, seq![slab], x, z),
        w.cell == slab.cell,
    ensures
        w.base.x == slab.x && w.base.z == slab.z && w.base.y == slab.elevation + 2_000_000_000,
        w.tip.x == slab.x && w.tip.z == slab.z && w.tip.y == slab.elevation + 1_000_000_000_000,
        ({
            let d = ground_distance(slab.x as int, slab.z as int, x, z);
            &&& d >= 2_000_000_000_000
            &&& w.stalk_alpha * ONE <= 180 * label_opacity(d) < (w.stalk_alpha + 1) * ONE
            &&& w.text_alpha * ONE <= 255 * label_opacity(d) < (w.text_alpha + 1) * ONE
            &&& forall|km: int|
                1000 * km <= d < 1000 * km + 1000 ==> w.distance@ == #[trigger] rounded_text(km, 1)
                    + " km"@
        }),
{
    let slabs = seq![slab];
    assert(slabs.drop_last() =~= Seq::empty());
    assert(cell_sum(slabs.drop_last(), slab.cell) == (0int, 0int, 0int, 0int));
    assert(cell_sum(slabs, slab.cell) == (
        1int,
        slab.x as int,
        slab.z as int,
        slab.elevation as int,
    ));
    assert(forall|v: int| #[trigger] (v / 1) == v);
}

/// Strips of other airports do not move an airport's stalk, and each of its own counts the
/// same.
pub proof fn stalks_average_their_own_strips(
    slabs: Seq<SlabSite>,
    more: SlabSite,
    cell: (i32, i32),
)
    ensures
        ({
            let a = cell_sum(slabs, cell);
            let b = cell_sum(slabs.push(more), cell);
            &&& more.cell != cell ==> b == a
            &&& more.cell == cell ==> b.0 == a.0 + 1 && b.1 == a.1 + more.x && b.2 == a.2 + more.z
                && b.3 == a.3 + more.elevation
        }),
        cell_sum(Seq::empty(), cell) == (0int, 0int, 0int, 0int),
{
    assert(slabs.push(more).drop_last() =~= slabs);
}

/// An averaged site stands for the whole sum of its strips, up to less than one of each.
pub proof fn averages_stand_for_the_sum(site: SlabSite, slabs: Seq<SlabSite>)
    requires
        is_average(site, slabs),
    ensures
        ({
            let s = cell_sum(slabs, site.cell);
            &&& s.0 > 0
            &&& site.x * s.0 <= s.1 < (site.x + 1) * s.0
            &&& site.z * s.0 <= s.2 < (site.z + 1) * s.0
            &&& site.elevation * s.0 <= s.3 < (site.elevation + 1) * s.0
        }),
{
    let s = cell_sum(slabs, site.cell);
    lemma_quotient(s.1, s.0);
    lemma_quotient(s.2, s.0);
    lemma_quotient(s.3, s.0);
}

proof fn lemma_quotient(n: int, d: int)
    requires
        d > 0,
    ensures
        (n / d) * d <= n < (n / d + 1) * d,
{
    vstd::arithmetic::div_mod::lemma_fundamental_div_mod(n, d);
    let q = n / d;
    let r = n % d;
    assert(q * d <= n < (q + 1) * d) by (nonlinear_arith)
        requires
            n == d * q + r,
            0 <= r < d,
    ;
}

/// The middle of the canvas is the middle of the window, and canvas pixels are drawn at the
/// scale: two points a canvas pixel apart lie a scale apart.
pub proof fn canvas_is_centred(p: int, q: int, scale: int, window: int, canvas: int)
    ensures
        ({
            let a = in_window(p, scale, window, canvas);
            let b = in_window(q, scale, window, canvas);
            (b - a - 1) * ONE <= (q - p) * scale <= (b - a + 1) * ONE
        }),
        ({
            let start = in_window(0, scale, window, canvas);
            let end = in_window(canvas, scale, window, canvas);
            -1 <= start + end - window <= 0
        }),
{
    assert((q - p) * scale == q * scale - p * scale) by (nonlinear_arith);
    assert(0 * scale == 0);
}

}
