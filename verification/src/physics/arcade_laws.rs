//! What the arcade flight model does with throttle, nose and keys: laws over its
//! velocities and turns.

use super::simple::{
    accelerations, control_turn, cruise_share, flown, leaned, pace, path_of, pushed, redirected,
    steered, turn_share_of, SimpleKeys,
};
use crate::camera::CameraMode;
use crate::fixed::{blend_stays_between, chain_of_products, scaled, ONE};
use crate::vector::{minus, stretched, unit_of, Triple};
use vstd::prelude::*;

verus! {

/// Lift and authority grow in proportion to the airspeed up to their limit, and are whole
/// at 25 metres a second.
pub proof fn authority_grows_with_airspeed(speed: int, limit: int)
    requires
        0 <= speed,
        0 <= limit,
    ensures
        ({
            let share = cruise_share(speed, limit);
            &&& 0 <= share <= limit
            &&& share < limit ==> share * 25 <= speed < (share + 1) * 25
            &&& share == limit ==> speed >= limit * 25
        }),
{
}

/// The path turns toward the nose by up to six times the frame's span, in proportion to
/// the authority that the airspeed gives, and never beyond it.
pub proof fn path_turns_with_authority(speed: int, dt: int)
    requires
        0 <= speed,
        0 <= dt,
    ensures
        ({
            let share = turn_share_of(speed, dt);
            let authority = cruise_share(speed, ONE as int);
            &&& 0 <= share <= ONE
            &&& share < ONE ==> share * ONE <= 6 * authority * dt < (share + 1) * ONE
            &&& share == ONE ==> 6 * authority * dt >= ONE * ONE
        }),
{
    let a = 6 * cruise_share(speed, ONE as int);
    assert(a * dt >= 0) by (nonlinear_arith)
        requires
            a >= 0,
            dt >= 0,
    ;
}

/// A key turns the aircraft one way, its opposite as far the other way, and both or
/// none not at all; by the rate times the authority times the time.
pub proof fn keys_turn_both_ways(rate: int, authority: int, dt: int)
    requires
        0 <= dt,
    ensures
        ({
            let turn = control_turn(rate, authority, dt, true, false);
            &&& control_turn(rate, authority, dt, false, true) == -turn
            &&& control_turn(rate, authority, dt, true, true) == 0
            &&& control_turn(rate, authority, dt, false, false) == 0
            &&& turn * ONE * ONE <= rate * authority * dt < (turn + 1) * ONE * ONE + ONE * dt
        }),
{
    chain_of_products(rate, authority, dt);
}

/// At full authority the aircraft pitches 0.8, rolls 1.2 and yaws 0.5 radians a second by
/// its keys; the free camera takes them away.
pub proof fn controls_have_their_rates(keys: SimpleKeys, authority: int)
    requires
        authority == ONE,
    ensures
        ({
            let (pitch, roll, yaw) = steered(keys, CameraMode::Orbit, authority, ONE as int);
            &&& keys.pitch_down && !keys.pitch_up ==> pitch == 800_000_000
            &&& keys.pitch_up && !keys.pitch_down ==> pitch == -800_000_000
            &&& keys.roll_left && !keys.roll_right ==> roll == 1_200_000_000
            &&& keys.roll_right && !keys.roll_left ==> roll == -1_200_000_000
            &&& keys.yaw_left && !keys.yaw_right ==> yaw == 500_000_000
            &&& keys.yaw_right && !keys.yaw_left ==> yaw == -500_000_000
        }),
        steered(keys, CameraMode::Free, authority, ONE as int) == (0int, 0int, 0int),
{
}

/// Full throttle pushes with 20 metres a second squared, a part of it with that part;
/// drag takes 0.4 of the airspeed a second.
pub proof fn throttle_pushes_and_air_drags(throttle: int, speed: int)
    ensures
        ({
            let (thrust, drag) = accelerations(throttle, speed);
            &&& thrust == 20 * throttle
            &&& 10 * drag <= 4 * speed < 10 * (drag + 1)
        }),
{
}

/// Thrust changes the velocity along the nose, drag against the path: without thrust what
/// the velocity loses lies along the path, and thrust adds its push along the nose to
/// that.
pub proof fn thrust_acts_along_the_nose(velocity: Triple, nose: Triple, throttle: int, dt: int)
    ensures
        ({
            let idle = pushed(velocity, nose, 0, dt);
            let powered = pushed(velocity, nose, throttle, dt);
            let (thrust, drag) = accelerations(throttle, pace(velocity));
            &&& minus(powered, idle) == stretched(nose, scaled(thrust, dt))
            &&& minus(velocity, idle) == stretched(path_of(velocity, nose), scaled(drag, dt))
        }),
        pace(velocity) > 1_000_000 ==> path_of(velocity, nose) == unit_of(velocity),
        pace(velocity) <= 1_000_000 ==> path_of(velocity, nose) == nose,
{
    assert(0 * dt == 0);
    assert(nose.0 * 0 == 0 && nose.1 * 0 == 0 && nose.2 * 0 == 0);
}

/// Turning the path toward the nose ends between the two along each axis: at the path
/// with no share, at the nose with all of it.
pub proof fn path_leans_toward_the_nose(from: Triple, to: Triple, share: int)
    requires
        0 <= share <= ONE,
    ensures
        ({
            let at = leaned(from, to, share);
            &&& share == 0 ==> at == from
            &&& share == ONE ==> at == to
            &&& from.0 <= to.0 ==> from.0 <= at.0 <= to.0
            &&& to.0 <= from.0 ==> to.0 <= at.0 <= from.0
            &&& from.1 <= to.1 ==> from.1 <= at.1 <= to.1
            &&& to.1 <= from.1 ==> to.1 <= at.1 <= from.1
            &&& from.2 <= to.2 ==> from.2 <= at.2 <= to.2
            &&& to.2 <= from.2 ==> to.2 <= at.2 <= from.2
            &&& (at.0 - from.0) * ONE <= (to.0 - from.0) * share < (at.0 - from.0 + 1) * ONE
            &&& (at.1 - from.1) * ONE <= (to.1 - from.1) * share < (at.1 - from.1 + 1) * ONE
            &&& (at.2 - from.2) * ONE <= (to.2 - from.2) * share < (at.2 - from.2 + 1) * ONE
        }),
{
    blend_stays_between(from.0, to.0, share);
    blend_stays_between(from.1, to.1, share);
    blend_stays_between(from.2, to.2, share);
}

/// Redirecting keeps the speed: the velocity is the new direction at the speed it had.
/// Where the path already follows the nose, it is the nose's direction.
pub proof fn redirecting_keeps_the_speed(
    velocity: Triple,
    path: Triple,
    nose: Triple,
    dt: int,
)
    ensures
        ({
            let way = unit_of(leaned(path, nose, turn_share_of(pace(velocity), dt)));
            let turned = redirected(velocity, path, nose, dt);
            &&& way != (0int, 0int, 0int) ==> turned == stretched(way, pace(velocity))
            &&& way == (0int, 0int, 0int) ==> turned == velocity
        }),
        path == nose && unit_of(nose) != (0int, 0int, 0int) ==> redirected(
            velocity,
            path,
            nose,
            dt,
        ) == stretched(unit_of(nose), pace(velocity)),
{
    let share = turn_share_of(pace(velocity), dt);
    if path == nose {
        assert(0 * share == 0);
        assert(leaned(path, nose, share) == nose);
    }
}

/// Whatever thrust and turning do, a frame pulls the aircraft down by 9.8 metres a second
/// for each second, and pulls it nowhere else.
pub proof fn gravity_pulls_the_model_down(
    velocity: Triple,
    nose: Triple,
    throttle: int,
    dt: int,
)
    ensures
        ({
            let v = flown(velocity, nose, throttle, dt);
            let turned = redirected(
                pushed(velocity, nose, throttle, dt),
                path_of(velocity, nose),
                nose,
                dt,
            );
            let fall = turned.1 - v.1;
            &&& v.0 == turned.0
            &&& v.2 == turned.2
            &&& 10 * fall <= 98 * dt < 10 * (fall + 1)
        }),
{
}

}
