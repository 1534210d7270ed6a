//! An arcade flight model: the velocity follows the nose. All quantities have
//! nine decimals.

use super::airplane_controller::{lever_moved, move_lever};
use crate::camera::CameraMode;
use crate::fixed::{blend, blend_stays_between, clamp, clamped, floor_div, root, scale, scaled, ONE};
use crate::plane::PlaneState;
use crate::vector::{
    length_of, length_sq, minus, plus, product_within, stretched, stretching_is_bounded,
    unit_of, unit_vector, vec3, Triple, Vec3,
};
use vstd::prelude::*;

verus! {

/// Velocity and throttle of the arcade model.
#[derive(Clone, Copy, Debug, PartialEq, Eq, Structural)]
pub struct SimplePlanePhysics {
    pub velocity: Vec3,
    pub throttle: i64,
}

impl Default for SimplePlanePhysics {
    fn default() -> (p: Self)
        ensures
            p.velocity == (Vec3 { x: 0, y: 0, z: 20_000_000_000 }),
            p.throttle == 500_000_000,
    {
        SimplePlanePhysics { velocity: vec3(0, 0, 20_000_000_000), throttle: 500_000_000 }
    }
}

/// Airspeed over cruise speed (25 m/s), within `0..=limit`.
pub open spec fn cruise_share(speed: int, limit: int) -> int {
    clamped(speed / 25, 0, limit)
}

/// Fraction by which the velocity turns toward the nose this frame: weak at low
/// speed, capped at cruise strength.
pub open spec fn turn_share_of(speed: int, dt: int) -> int {
    let t = scaled(6 * cruise_share(speed, ONE as int), dt);
    if t < ONE {
        t
    } else {
        ONE as int
    }
}

/// [`turn_share_of`] at an airspeed.
pub fn turn_share(speed: i64, dt: u64) -> (share: i64)
    requires
        0 <= speed,
    ensures
        share == turn_share_of(speed as int, dt as int),
        0 <= share <= ONE,
{
    let strength: i128 = 6 * (clamp((speed / 25) as i128, 0, ONE) as i128);
    let d: i128 = dt as i128;
    assert(0 <= strength * d <= 6_000_000_000 * 0x1_0000_0000_0000_0000) by (nonlinear_arith)
        requires
            0 <= strength <= 6_000_000_000,
            0 <= d <= 0xffff_ffff_ffff_ffff,
    ;
    clamp(floor_div(strength * d, 1_000_000_000), 0, ONE)
}

/// Lift as a share of cruise lift, up to one and a half.
pub fn lift_share(speed: i64) -> (share: i64)
    requires
        0 <= speed,
    ensures
        share == cruise_share(speed as int, 1_500_000_000),
{
    clamp((speed / 25) as i128, 0, 1_500_000_000)
}

/// Keeps the aircraft half a metre above the ground plane; on the ground it stops
/// sinking.
pub fn ground_clamp(y: i64, climb: i64) -> (r: (i64, i64))
    ensures
        y >= 500_000_000 ==> r == (y, climb),
        y < 500_000_000 ==> r.0 == 500_000_000 && r.1 == if climb > 0 {
            climb
        } else {
            0
        },
{
    if y < 500_000_000 {
        (
            500_000_000,
            if climb > 0 {
                climb
            } else {
                0
            },
        )
    } else {
        (y, climb)
    }
}

/// The keys of the arcade model.
#[derive(Clone, Copy, Debug, PartialEq, Eq)]
pub struct SimpleKeys {
    pub throttle_up: bool,
    pub throttle_down: bool,
    pub pitch_down: bool,
    pub pitch_up: bool,
    pub roll_left: bool,
    pub roll_right: bool,
    pub yaw_left: bool,
    pub yaw_right: bool,
}

/// By how much the aircraft turns about its own axes in a frame, in nanoradians.
#[derive(Clone, Copy, Debug, PartialEq, Eq, Structural)]
pub struct SimpleTurn {
    pub pitch: i64,
    pub roll: i64,
    pub yaw: i64,
}

/// A control's turn in a frame: its rate at the authority that the airspeed gives,
/// one way, the other, or neither where both keys or none are held.
pub open spec fn control_turn(rate: int, authority: int, dt: int, plus: bool, minus: bool) -> int {
    let angle = scaled(scaled(rate, authority), dt);
    if plus == minus {
        0
    } else if plus {
        angle
    } else {
        -angle
    }
}

/// The length of a vector given by its components.
pub open spec fn pace(v: Triple) -> int {
    root(v.0 * v.0 + v.1 * v.1 + v.2 * v.2)
}

/// The direction of flight; at a standstill, that of the nose.
pub open spec fn path_of(velocity: Triple, nose: Triple) -> Triple {
    if pace(velocity) > 1_000_000 {
        unit_of(velocity)
    } else {
        nose
    }
}

/// Thrust and drag as accelerations, for a throttle and an airspeed.
pub open spec fn accelerations(throttle: int, speed: int) -> (int, int) {
    (scaled(throttle, 20_000_000_000), scaled(400_000_000, speed))
}

/// The velocity after thrust along the nose and drag along the path.
pub open spec fn pushed(velocity: Triple, nose: Triple, throttle: int, dt: int) -> Triple {
    let a = accelerations(throttle, pace(velocity));
    minus(
        plus(velocity, stretched(nose, scaled(a.0, dt))),
        stretched(path_of(velocity, nose), scaled(a.1, dt)),
    )
}

/// A direction turned a fraction of the way to another.
pub open spec fn leaned(from: Triple, to: Triple, share: int) -> Triple {
    plus(from, stretched(minus(to, from), share))
}

/// The velocity turned from the path toward the nose, at the speed it has.
pub open spec fn redirected(velocity: Triple, path: Triple, nose: Triple, dt: int) -> Triple {
    let speed = pace(velocity);
    let way = unit_of(leaned(path, nose, turn_share_of(speed, dt)));
    if way == (0int, 0int, 0int) {
        velocity
    } else {
        stretched(way, speed)
    }
}

/// The velocity after a frame in the air: pushed, turned toward the nose and pulled
/// down by gravity.
pub open spec fn flown(velocity: Triple, nose: Triple, throttle: int, dt: int) -> Triple {
    let v = redirected(
        pushed(velocity, nose, throttle, dt),
        path_of(velocity, nose),
        nose,
        dt,
    );
    (v.0, v.1 - scaled(9_800_000_000, dt), v.2)
}

fn turn_by(rate: i64, authority: i64, dt: u64, plus: bool, minus: bool) -> (angle: i64)
    requires
        0 <= rate <= 2_000_000_000,
        0 <= authority <= ONE,
        dt <= 10_000_000_000,
    ensures
        angle == control_turn(rate as int, authority as int, dt as int, plus, minus),
{
    proof {
        product_within(rate as int, authority as int, 2_000_000_000, ONE as int);
        product_within(
            scaled(rate as int, authority as int),
            dt as int,
            2_000_000_000,
            10_000_000_000,
        );
    }
    let angle: i64 = scale(scale(rate, authority) as i64, dt as i64) as i64;
    if plus == minus {
        0
    } else if plus {
        angle
    } else {
        -angle
    }
}

fn stretch(direction: &Vec3, by: i64) -> (r: Vec3)
    requires
        direction.within(3 * ONE),
        -100_000_000_000_000 <= by <= 100_000_000_000_000,
    ensures
        r.parts() == stretched(direction.parts(), by as int),
{
    proof {
        stretching_is_bounded(direction.parts(), by as int, 3 * ONE, 100_000_000_000_000);
    }
    vec3(
        scale(direction.x, by) as i64,
        scale(direction.y, by) as i64,
        scale(direction.z, by) as i64,
    )
}

fn lean(from: &Vec3, to: &Vec3, share: i64) -> (r: Vec3)
    requires
        from.within(3 * ONE),
        to.within(3 * ONE),
        0 <= share <= ONE,
    ensures
        r.parts() == leaned(from.parts(), to.parts(), share as int),
        r.within(3 * ONE),
{
    proof {
        blend_stays_between(from.x as int, to.x as int, share as int);
        blend_stays_between(from.y as int, to.y as int, share as int);
        blend_stays_between(from.z as int, to.z as int, share as int);
    }
    vec3(blend(from.x, to.x, share), blend(from.y, to.y, share), blend(from.z, to.z, share))
}

fn path_for(velocity: &Vec3, nose: &Vec3) -> (r: (i64, Vec3))
    requires
        velocity.within(1_000_000_000_000),
        nose.within(ONE as int),
    ensures
        r.0 == pace(velocity.parts()),
        0 <= r.0 <= 2_000_000_000_000,
        r.1.parts() == path_of(velocity.parts(), nose.parts()),
        r.1.within(3 * ONE),
{
    let speed: i64 = length_of(velocity);
    proof {
        lemma_length_bound(*velocity, speed as int, 1_000_000_000_000);
    }
    if speed > 1_000_000 {
        (speed, unit_vector(velocity))
    } else {
        (speed, *nose)
    }
}

fn push(velocity: &Vec3, nose: &Vec3, path: &Vec3, thrust: i64, drag: i64, d: i64) -> (r: Vec3)
    requires
        velocity.within(1_000_000_000_000),
        nose.within(ONE as int),
        path.within(3 * ONE),
        0 <= thrust <= 20_000_000_000,
        0 <= drag <= 800_000_000_000,
        0 <= d <= 10_000_000_000,
    ensures
        r.parts() == minus(
            plus(
                velocity.parts(),
                stretched(nose.parts(), scaled(thrust as int, d as int)),
            ),
            stretched(path.parts(), scaled(drag as int, d as int)),
        ),
        r.within(30_000_000_000_000),
{
    proof {
        product_within(thrust as int, d as int, 20_000_000_000, 10_000_000_000);
        product_within(drag as int, d as int, 800_000_000_000, 10_000_000_000);
        stretching_is_bounded(
            nose.parts(),
            scaled(thrust as int, d as int),
            ONE as int,
            200_000_000_000,
        );
        stretching_is_bounded(
            path.parts(),
            scaled(drag as int, d as int),
            3 * ONE,
            8_000_000_000_000,
        );
    }
    let a: Vec3 = stretch(nose, scale(thrust, d) as i64);
    let b: Vec3 = stretch(path, scale(drag, d) as i64);
    vec3(
        velocity.x + a.x - b.x,
        velocity.y + a.y - b.y,
        velocity.z + a.z - b.z,
    )
}

fn redirect(velocity: &Vec3, path: &Vec3, nose: &Vec3, dt: u64) -> (r: (i64, Vec3))
    requires
        velocity.within(30_000_000_000_000),
        path.within(3 * ONE),
        nose.within(ONE as int),
    ensures
        r.0 == pace(velocity.parts()),
        r.0 >= 0,
        r.1.parts() == redirected(velocity.parts(), path.parts(), nose.parts(), dt as int),
        r.1.within(190_000_000_000_000),
{
    let speed: i64 = length_of(velocity);
    proof {
        lemma_length_bound(*velocity, speed as int, 30_000_000_000_000);
    }
    let way: Vec3 = unit_vector(&lean(path, nose, turn_share(speed, dt)));
    if way.x == 0 && way.y == 0 && way.z == 0 {
        (speed, *velocity)
    } else {
        proof {
            stretching_is_bounded(way.parts(), speed as int, 3 * ONE, 60_000_000_000_000);
        }
        (speed, stretch(&way, speed))
    }
}

fn advance(position: &Vec3, v: &Vec3, d: i64) -> (at: Vec3)
    requires
        position.within(1_000_000_000_000_000_000),
        v.within(200_000_000_000_000),
        0 <= d <= 10_000_000_000,
    ensures
        at.parts() == plus(position.parts(), stretched(v.parts(), d as int)),
{
    proof {
        stretching_is_bounded(v.parts(), d as int, 200_000_000_000_000, 10_000_000_000);
    }
    vec3(
        position.x + scale(v.x, d) as i64,
        position.y + scale(v.y, d) as i64,
        position.z + scale(v.z, d) as i64,
    )
}

/// How the controls turn the aircraft in a frame: not at all under the free camera.
pub open spec fn steered(keys: SimpleKeys, mode: CameraMode, authority: int, dt: int) -> (
    int,
    int,
    int,
) {
    if mode == CameraMode::Orbit {
        (
            control_turn(800_000_000, authority, dt, keys.pitch_down, keys.pitch_up),
            control_turn(1_200_000_000, authority, dt, keys.roll_left, keys.roll_right),
            control_turn(500_000_000, authority, dt, keys.yaw_left, keys.yaw_right),
        )
    } else {
        (0int, 0int, 0int)
    }
}

fn steer(keys: &SimpleKeys, mode: CameraMode, authority: i64, dt: u64) -> (turn: SimpleTurn)
    requires
        0 <= authority <= ONE,
        dt <= 10_000_000_000,
    ensures
        (turn.pitch as int, turn.roll as int, turn.yaw as int) == steered(
            *keys,
            mode,
            authority as int,
            dt as int,
        ),
{
    if mode == CameraMode::Orbit {
        SimpleTurn {
            pitch: turn_by(800_000_000, authority, dt, keys.pitch_down, keys.pitch_up),
            roll: turn_by(1_200_000_000, authority, dt, keys.roll_left, keys.roll_right),
            yaw: turn_by(500_000_000, authority, dt, keys.yaw_left, keys.yaw_right),
        }
    } else {
        SimpleTurn { pitch: 0, roll: 0, yaw: 0 }
    }
}

/// A frame of the arcade model: the throttle follows its keys, the velocity grows
/// along the nose and shrinks along the path, turns toward the nose and falls, and
/// the aircraft moves along it, never below half a metre. Returned is by how much it
/// turns about its axes.
pub fn simple_plane_physics(
    physics: &mut SimplePlanePhysics,
    position: &mut Vec3,
    state: &mut PlaneState,
    nose: &Vec3,
    keys: &SimpleKeys,
    mode: CameraMode,
    dt: u64,
) -> (turn: SimpleTurn)
    requires
        0 <= old(physics).throttle <= ONE,
        old(physics).velocity.within(1_000_000_000_000),
        old(position).within(1_000_000_000_000_000_000),
        nose.within(ONE as int),
        dt <= 10_000_000_000,
    ensures
        final(physics).throttle == lever_moved(
            old(physics).throttle as int,
            500_000_000,
            dt as int,
            keys.throttle_up,
            keys.throttle_down,
        ),
        ({
            let before = old(physics).velocity.parts();
            let throttle = final(physics).throttle as int;
            let v = flown(before, nose.parts(), throttle, dt as int);
            let at = plus(old(position).parts(), stretched(v, dt as int));
            let low = at.1 < 500_000_000;
            let a = accelerations(throttle, pace(before));
            let lift = pace(pushed(before, nose.parts(), throttle, dt as int));
            &&& final(position).parts() == if low {
                (at.0, 500_000_000int, at.2)
            } else {
                at
            }
            &&& final(physics).velocity.parts() == if low && v.1 < 0 {
                (v.0, 0int, v.2)
            } else {
                v
            }
            &&& *final(state) == (PlaneState {
                speed: pace(final(physics).velocity.parts()) as i64,
                thrust: a.0 as i64,
                drag: a.1 as i64,
                lift_pct: cruise_share(lift, 1_500_000_000) as i64,
                ..*old(state)
            })
            &&& (turn.pitch as int, turn.roll as int, turn.yaw as int) == steered(
                *keys,
                mode,
                cruise_share(pace(before), ONE as int),
                dt as int,
            )
        }),
        final(position).y >= 500_000_000,
{
    let velocity: Vec3 = physics.velocity;
    let throttle: i64 = move_lever(
        physics.throttle,
        500_000_000,
        dt,
        keys.throttle_up,
        keys.throttle_down,
    );
    let (speed, path) = path_for(&velocity, nose);
    let turn: SimpleTurn = steer(keys, mode, clamp((speed / 25) as i128, 0, ONE), dt);
    let thrust: i64 = scale(throttle, 20_000_000_000) as i64;
    let drag: i64 = scale(400_000_000, speed) as i64;
    let d: i64 = dt as i64;
    let between: Vec3 = push(&velocity, nose, &path, thrust, drag, d);
    assert(between.parts() == pushed(velocity.parts(), nose.parts(), throttle as int, dt as int));
    let (lifting, turned) = redirect(&between, &path, nose, dt);
    let v: Vec3 = vec3(turned.x, turned.y - scale(9_800_000_000, d) as i64, turned.z);
    assert(v.parts() == flown(velocity.parts(), nose.parts(), throttle as int, dt as int));
    let at: Vec3 = advance(position, &v, d);
    let (y, climb) = ground_clamp(at.y, v.y);
    *position = vec3(at.x, y, at.z);
    *physics = SimplePlanePhysics { velocity: vec3(v.x, climb, v.z), throttle };
    state.speed = length_of(&physics.velocity);
    state.thrust = thrust;
    state.drag = drag;
    state.lift_pct = lift_share(lifting);
    turn
}

proof fn lemma_length_bound(v: Vec3, l: int, limit: int)
    requires
        v.within(limit),
        0 <= limit,
        0 <= l,
        l * l <= length_sq(v),
    ensures
        l <= 2 * limit,
{
    product_within(v.x as int, v.x as int, limit, limit);
    product_within(v.y as int, v.y as int, limit, limit);
    product_within(v.z as int, v.z as int, limit, limit);
    assert(l <= 2 * limit) by (nonlinear_arith)
        requires
            0 <= l,
            0 <= limit,
            l * l <= 3 * (limit * limit),
    ;
}

}
