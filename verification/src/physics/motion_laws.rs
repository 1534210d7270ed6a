//! How engine, air, weight and loads move the aircraft: laws over thrusts, drags and
//! motions.

use super::aero_model::SurfaceForce;
use super::aircraft_physics::{
    density_base, drag_along, lift_share, not_below_zero, predicted, rpm_share, speed_share,
    thrust_of,
};
use super::bi_vector3::BiVector3;
use super::flight_config::FlightModelConfig;
use super::rigid_body::{
    against_path, air_at, average, body_damping, body_drag, bounded, dot, in_frame, in_world,
    instruments_after, is_load, motion_ahead, step_force, step_torque, turned_up, velocity_ahead,
    Axes, Body, Inertia,
};
use crate::fixed::{chain_of_products, root, scaled, ONE};
use crate::plane::PlaneState;
use crate::vector::{cross, minus, plus, stretched, unit_of, Triple};
use vstd::prelude::*;

verus! {

proof fn lemma_quotient(n: int, d: int)
    requires
        d > 0,
    ensures
        (n / d) * d <= n < (n / d + 1) * d,
{
    vstd::arithmetic::div_mod::lemma_fundamental_div_mod(n, d);
    let q = n / d;
    let r = n % d;
    assert(q * d <= n < (q + 1) * d) by (nonlinear_arith)
        requires
            n == d * q + r,
            0 <= r < d,
    ;
}

/// Thrust is full thrust times the square of the engine's share of its full speed.
pub proof fn thrust_is_the_square_of_the_speed(thrust_max: int, rps: int, max_rps: int)
    requires
        0 <= thrust_max,
        0 <= rps <= max_rps,
        1_000_000 < max_rps,
    ensures
        ({
            let share = rpm_share(rps, max_rps);
            let thrust = thrust_of(thrust_max, rps, max_rps);
            &&& share * max_rps <= rps * ONE < (share + 1) * max_rps
            &&& thrust * ONE * ONE <= thrust_max * (share * share) < (thrust + 1) * ONE * ONE + ONE
                * thrust_max
        }),
{
    lemma_quotient(rps * ONE, max_rps);
    let q = (rps * ONE) / max_rps;
    assert(0 <= q <= ONE) by (nonlinear_arith)
        requires
            q * max_rps <= rps * ONE,
            rps * ONE < (q + 1) * max_rps,
            0 <= rps <= max_rps,
            0 < max_rps,
            ONE > 0,
    ;
    let share = rpm_share(rps, max_rps);
    assert(share == q);
    let sq = share * share;
    let s = scaled(share, share);
    let t = scaled(thrust_max, s);
    assert(thrust_max * (s * 1_000_000_000) <= thrust_max * sq <= thrust_max * (s * 1_000_000_000
        + 1_000_000_000)) by (nonlinear_arith)
        requires
            s * 1_000_000_000 <= sq,
            sq < s * 1_000_000_000 + 1_000_000_000,
            0 <= thrust_max,
    ;
    assert(thrust_max * (s * 1_000_000_000) == 1_000_000_000 * (thrust_max * s)) by (nonlinear_arith);
    assert(thrust_max * (s * 1_000_000_000 + 1_000_000_000) == 1_000_000_000 * (thrust_max * s)
        + 1_000_000_000 * thrust_max) by (nonlinear_arith);
}

/// The propeller bites less in proportion to the airspeed, down to nothing.
pub proof fn propeller_loses_its_bite_evenly(airspeed: int, zero_speed: int)
    requires
        0 <= airspeed <= zero_speed,
        1_000_000 < zero_speed,
    ensures
        ({
            let lost = ONE - speed_share(airspeed, zero_speed);
            lost * zero_speed <= airspeed * ONE < (lost + 1) * zero_speed
        }),
        speed_share(airspeed + zero_speed, zero_speed) == 0,
{
    lemma_quotient(airspeed * ONE, zero_speed);
    let q = (airspeed * ONE) / zero_speed;
    assert(0 <= q <= ONE) by (nonlinear_arith)
        requires
            q * zero_speed <= airspeed * ONE,
            airspeed * ONE < (q + 1) * zero_speed,
            0 <= airspeed <= zero_speed,
            0 < zero_speed,
            ONE > 0,
    ;
    let m = (airspeed + zero_speed) * ONE;
    lemma_quotient(m, zero_speed);
    let w = m / zero_speed;
    assert(w >= ONE) by (nonlinear_arith)
        requires
            m == (airspeed + zero_speed) * ONE,
            m < (w + 1) * zero_speed,
            0 <= airspeed,
            0 < zero_speed,
            ONE > 0,
    ;
}

/// The base of the density ratio falls by 22.557 parts in a million for each metre.
pub proof fn air_thins_evenly(altitude: int)
    ensures
        density_base(altitude) > 0 ==> {
            let lost = ONE - density_base(altitude);
            lost * ONE <= altitude * 22_557 < (lost + 1) * ONE
        },
        density_base(altitude) >= 0,
        altitude <= 44_332_000_000_000 ==> density_base(altitude) > 0,
{
}

/// Along an axis the fuselage drags half the density times its area times the square of
/// the speed, against the motion.
pub proof fn fuselage_drags_with_the_square(density: int, cda: int, v: int)
    ensures
        ({
            let drag = drag_along(density, cda, v);
            let size = if v >= 0 {
                -drag
            } else {
                drag
            };
            2 * size * ONE <= scaled(density, cda) * scaled(v, v) < 2 * (size + 1) * ONE
        }),
{
}

/// Drag acts along each body axis with that axis's own coefficient and speed.
pub proof fn each_axis_drags_for_itself(config: FlightModelConfig, density: int, v: Triple)
    ensures
        ({
            let d = body_drag(config, density, v);
            &&& d.0 == drag_along(density, config.fuselage_drag.x as int, v.0)
            &&& d.1 == drag_along(density, config.fuselage_drag.y as int, v.1)
            &&& d.2 == drag_along(density, config.fuselage_drag.z as int, v.2)
        }),
{
}

/// A rotation about a body axis is braked by its coefficient times the rate times the
/// airspeed; roll is about the nose, pitch about the wings, yaw about the body's up.
pub proof fn rotation_is_braked_in_proportion(
    config: FlightModelConfig,
    rates: Triple,
    speed: int,
)
    requires
        0 <= speed,
    ensures
        ({
            let t = body_damping(config, rates, speed);
            let pitch = config.aero_damp.z * rates.0 * speed;
            let yaw = config.aero_damp.y * rates.1 * speed;
            let roll = config.aero_damp.x * rates.2 * speed;
            let slack = ONE * ONE + ONE * speed;
            &&& 0 <= pitch + t.0 * ONE * ONE < slack
            &&& 0 <= yaw + t.1 * ONE * ONE < slack
            &&& 0 <= roll + t.2 * ONE * ONE < slack
        }),
{
    chain_of_products(config.aero_damp.z as int, rates.0, speed);
    chain_of_products(config.aero_damp.y as int, rates.1, speed);
    chain_of_products(config.aero_damp.x as int, rates.2, speed);
}

/// A force changes the speed by its acceleration, force over mass, times the time; gravity
/// takes its own times the time.
pub proof fn force_accelerates_mass(v: int, force: int, mass: int, gravity: int, ahead: int)
    requires
        mass > 0,
    ensures
        ({
            let free = predicted(v, 0, mass, gravity, ahead) - v;
            free * ONE <= -(gravity * ahead) < (free + 1) * ONE
        }),
        exists|a: int|
            {
                let change = predicted(v, force, mass, 0, ahead) - v;
                &&& #[trigger] (a * mass) <= force * ONE < (a + 1) * mass
                &&& change * ONE <= a * ahead < (change + 1) * ONE
            },
        force * ONE == mass * gravity ==> predicted(v, force, mass, gravity, ahead) == v,
{
    vstd::arithmetic::div_mod::lemma_div_basics(mass);
    assert((-gravity) * ahead == -(gravity * ahead)) by (nonlinear_arith);
    assert((0 * ONE) / mass == 0);
    let a = (force * ONE) / mass;
    lemma_quotient(force * ONE, mass);
    assert(a * mass <= force * ONE);
    if force * ONE == mass * gravity {
        vstd::arithmetic::div_mod::lemma_div_multiples_vanish(gravity, mass);
        assert(0 * ahead == 0);
    }
}

/// Gravity pulls down and nowhere else; each axis moves under its own component.
pub proof fn gravity_pulls_down(
    velocity: Triple,
    force: Triple,
    mass: int,
    gravity: int,
    ahead: int,
)
    requires
        mass > 0,
    ensures
        ({
            let v = velocity_ahead(velocity, force, mass, gravity, ahead);
            let floating = velocity_ahead(velocity, force, mass, 0, ahead);
            &&& v.0 == floating.0
            &&& v.2 == floating.2
            &&& (floating.1 - v.1 - 1) * ONE <= gravity * ahead <= (floating.1 - v.1 + 1) * ONE
            &&& v.0 == predicted(velocity.0, force.0, mass, 0, ahead)
            &&& floating.1 == predicted(velocity.1, force.1, mass, 0, ahead)
            &&& v.2 == predicted(velocity.2, force.2, mass, 0, ahead)
        }),
{
    let a = (force.1 * ONE) / mass;
    assert((a - gravity) * ahead == a * ahead - gravity * ahead && (a - 0) * ahead == a * ahead)
        by (nonlinear_arith);
}

/// A torque about a principal axis spins up that axis alone: by the torque over its
/// moment of inertia, times the time.
pub proof fn torque_spins_its_axis(inertia: Inertia, torque: Triple, ahead: int)
    ensures
        ({
            let t = in_frame(inertia.axes, torque);
            let spin = turned_up(inertia, torque, ahead);
            &&& spin.0 == predicted(0, t.0, inertia.principal.x as int, 0, ahead)
            &&& spin.1 == predicted(0, t.1, inertia.principal.y as int, 0, ahead)
            &&& spin.2 == predicted(0, t.2, inertia.principal.z as int, 0, ahead)
        }),
{
}

/// The look ahead moves the aircraft under its loads and its thrust together: thrust
/// counts as a force along the nose.
pub proof fn thrust_counts_as_a_force(
    body: Body,
    inertia: Inertia,
    force: Triple,
    torque: Triple,
    thrust: int,
    gravity: int,
    ahead: int,
)
    ensures
        ({
            let pulled = plus(force, in_world(body.axes, (0int, 0int, thrust)));
            let with_thrust = motion_ahead(body, inertia, force, torque, thrust, gravity, ahead);
            let as_load = motion_ahead(body, inertia, pulled, torque, 0, gravity, ahead);
            &&& with_thrust == as_load
            &&& as_load.0 == velocity_ahead(
                body.velocity.parts(),
                pulled,
                inertia.mass as int,
                gravity,
                ahead,
            )
            &&& minus(as_load.1, body.rates.parts()) == in_world(
                inertia.axes,
                turned_up(inertia, torque, ahead),
            )
        }),
{
    lemma_nothing(body.axes);
}

proof fn lemma_nothing(axes: Axes)
    ensures
        in_world(axes, (0int, 0int, 0int)) == (0int, 0int, 0int),
{
    let (x, y, z) = (axes.x.parts(), axes.y.parts(), axes.z.parts());
    assert(x.0 * 0 == 0 && x.1 * 0 == 0 && x.2 * 0 == 0);
    assert(y.0 * 0 == 0 && y.1 * 0 == 0 && y.2 * 0 == 0);
    assert(z.0 * 0 == 0 && z.1 * 0 == 0 && z.2 * 0 == 0);
}

/// Over a step the engine pulls along the nose with all of its thrust, and whatever the
/// surfaces do adds to it; what is left without either is the fuselage's drag.
pub proof fn engine_and_surfaces_add_up(
    body: Body,
    aero: Triple,
    thrust: int,
    density: int,
    config: FlightModelConfig,
)
    ensures
        ({
            let none = (0int, 0int, 0int);
            let coasting = step_force(body, none, 0, density, config);
            let flying = step_force(body, aero, thrust, density, config);
            &&& minus(flying, coasting) == plus(aero, in_world(body.axes, (0int, 0int, thrust)))
            &&& coasting == in_world(
                body.axes,
                body_drag(config, density, in_frame(body.axes, body.velocity.parts())),
            )
        }),
        minus(step_torque(body, aero, config), step_torque(body, (0int, 0int, 0int), config))
            == aero,
{
    lemma_nothing(body.axes);
}

/// The two evaluations of a step count half each.
pub proof fn evaluations_count_half_each(a: Triple, b: Triple)
    ensures
        ({
            let m = average(a, b);
            &&& 2 * m.0 <= a.0 + b.0 <= 2 * m.0 + 1
            &&& 2 * m.1 <= a.1 + b.1 <= 2 * m.1 + 1
            &&& 2 * m.2 <= a.2 + b.2 <= 2 * m.2 + 1
        }),
{
}

/// A vector along an axis of a frame is that much of the axis in the world, and a vector
/// is the sum of its parts along the axes, to the last decimals.
pub proof fn axes_carry_their_components(axes: Axes, v: Triple)
    ensures
        ({
            let along_x = in_world(axes, (v.0, 0int, 0int));
            let along_y = in_world(axes, (0int, v.1, 0int));
            let along_z = in_world(axes, (0int, 0int, v.2));
            &&& along_x == stretched(axes.x.parts(), v.0)
            &&& along_y == stretched(axes.y.parts(), v.1)
            &&& along_z == stretched(axes.z.parts(), v.2)
            &&& bounded(minus(in_world(axes, v), plus(plus(along_x, along_y), along_z)), 2)
        }),
{
    let (x, y, z) = (axes.x.parts(), axes.y.parts(), axes.z.parts());
    assert(x.0 * 0 == 0 && x.1 * 0 == 0 && x.2 * 0 == 0);
    assert(y.0 * 0 == 0 && y.1 * 0 == 0 && y.2 * 0 == 0);
    assert(z.0 * 0 == 0 && z.1 * 0 == 0 && z.2 * 0 == 0);
}

/// What a frame sees of a vector is its projection on each axis.
pub proof fn frames_see_projections(axes: Axes, v: Triple)
    ensures
        ({
            let f = in_frame(axes, v);
            &&& f.0 * ONE <= dot(axes.x.parts(), v) < (f.0 + 1) * ONE
            &&& f.1 * ONE <= dot(axes.y.parts(), v) < (f.1 + 1) * ONE
            &&& f.2 * ONE <= dot(axes.z.parts(), v) < (f.2 + 1) * ONE
        }),
{
}

/// The cross product is right-handed: x crossed with y is z, and so around; crossed the
/// other way it points the other way, but for the last decimal.
pub proof fn cross_products_are_right_handed(a: Triple, b: Triple, k: int)
    ensures
        cross((ONE as int, 0int, 0int), (0int, k, 0int)) == (0int, 0int, k),
        cross((0int, ONE as int, 0int), (0int, 0int, k)) == (k, 0int, 0int),
        cross((0int, 0int, ONE as int), (k, 0int, 0int)) == (0int, k, 0int),
        bounded(plus(cross(a, b), cross(b, a)), 1),
{
    assert(a.1 * b.2 == b.2 * a.1 && a.2 * b.1 == b.1 * a.2) by (nonlinear_arith);
    assert(a.2 * b.0 == b.0 * a.2 && a.0 * b.2 == b.2 * a.0) by (nonlinear_arith);
    assert(a.0 * b.1 == b.1 * a.0 && a.1 * b.0 == b.0 * a.1) by (nonlinear_arith);
    assert(0 * k == 0 && 0 * 0 == 0);
}

/// A cross product adds over its second factor, but for the last decimal.
pub proof fn cross_products_add_up(a: Triple, b: Triple, c: Triple)
    ensures
        bounded(minus(cross(a, plus(b, c)), plus(cross(a, b), cross(a, c))), 1),
{
    assert(a.0 * (b.1 + c.1) == a.0 * b.1 + a.0 * c.1) by (nonlinear_arith);
    assert(a.0 * (b.2 + c.2) == a.0 * b.2 + a.0 * c.2) by (nonlinear_arith);
    assert(a.1 * (b.0 + c.0) == a.1 * b.0 + a.1 * c.0) by (nonlinear_arith);
    assert(a.1 * (b.2 + c.2) == a.1 * b.2 + a.1 * c.2) by (nonlinear_arith);
    assert(a.2 * (b.0 + c.0) == a.2 * b.0 + a.2 * c.0) by (nonlinear_arith);
    assert(a.2 * (b.1 + c.1) == a.2 * b.1 + a.2 * c.1) by (nonlinear_arith);
}

/// A vector at length one points where the vector does: each component is the vector's,
/// over its length.
pub proof fn units_keep_the_direction(v: Triple)
    requires
        root(v.0 * v.0 + v.1 * v.1 + v.2 * v.2) > 0,
    ensures
        ({
            let length = root(v.0 * v.0 + v.1 * v.1 + v.2 * v.2);
            let u = unit_of(v);
            &&& u.0 * length <= v.0 * ONE < (u.0 + 1) * length
            &&& u.1 * length <= v.1 * ONE < (u.1 + 1) * length
            &&& u.2 * length <= v.2 * ONE < (u.2 + 1) * length
        }),
{
    let length = root(v.0 * v.0 + v.1 * v.1 + v.2 * v.2);
    lemma_quotient(v.0 * ONE, length);
    lemma_quotient(v.1 * ONE, length);
    lemma_quotient(v.2 * ONE, length);
}

/// A point on the aircraft meets the air that its own motion brings: against its velocity,
/// and against what turning adds at its arm.
pub proof fn air_comes_against_the_motion(velocity: Triple, rates: Triple, arm: Triple)
    ensures
        plus(air_at(velocity, rates, arm), plus(velocity, cross(rates, arm))) == (0int, 0int, 0int),
{
}

/// The instruments read what the step did: the airspeed, the thrust, what surfaces and
/// fuselage drag against the path, 0.85 of the former, and their sum.
pub proof fn instruments_read_the_step(
    state: PlaneState,
    body: Body,
    thrust: i64,
    aero: Triple,
    drag: Triple,
    mass: int,
    gravity: int,
)
    requires
        -1_000_000_000_000_000_000 <= against_path(aero, body.velocity.parts())
            <= 1_000_000_000_000_000_000,
        -1_000_000_000_000_000_000 <= against_path(drag, body.velocity.parts())
            <= 1_000_000_000_000_000_000,
    ensures
        ({
            let after = instruments_after(state, body, thrust, aero, drag, mass, gravity);
            let a = against_path(aero, body.velocity.parts());
            let d = against_path(drag, body.velocity.parts());
            &&& after.thrust == thrust
            &&& a >= 0 ==> after.drag_surface * 100 <= a * 85 < (after.drag_surface + 1) * 100
            &&& a < 0 ==> after.drag_surface == 0
            &&& d >= 0 ==> after.drag_fuselage == d
            &&& d < 0 ==> after.drag_fuselage == 0
            &&& after.drag == after.drag_surface + after.drag_fuselage
        }),
{
}

/// The lift reads as a share of the weight; a push down reads as none.
pub proof fn lift_reads_as_a_share_of_the_weight(lift: int, mass: int, gravity: int)
    requires
        mass * gravity >= ONE * ONE,
    ensures
        ({
            let weight = scaled(mass, gravity);
            let share = lift_share(lift, mass, gravity);
            &&& lift <= 0 ==> share == 0
            &&& lift >= 0 ==> share * weight <= lift * ONE < (share + 1) * weight
        }),
{
    let weight = scaled(mass, gravity);
    lemma_quotient(not_below_zero(lift) * ONE, weight);
    vstd::arithmetic::div_mod::lemma_div_basics(weight);
}

/// A surface pushes along its chord and normal. It turns the aircraft by its own moment
/// about its span and, mounted at an arm, by the arm crossed with its push on top.
pub proof fn surfaces_push_and_turn(
    near: BiVector3,
    far: BiVector3,
    f: SurfaceForce,
    axes: Axes,
    arm: Triple,
)
    requires
        is_load(near, f, axes, (0int, 0int, 0int)),
        is_load(far, f, axes, arm),
    ensures
        ({
            let (x, y, z) = (axes.x, axes.y, axes.z);
            let (p, t) = (far.force, near.torque);
            &&& p.x * ONE <= x.x * f.x + y.x * f.y < (p.x + 1) * ONE
            &&& p.y * ONE <= x.y * f.x + y.y * f.y < (p.y + 1) * ONE
            &&& p.z * ONE <= x.z * f.x + y.z * f.y < (p.z + 1) * ONE
            &&& t.x * ONE <= z.x * f.moment < (t.x + 1) * ONE
            &&& t.y * ONE <= z.y * f.moment < (t.y + 1) * ONE
            &&& t.z * ONE <= z.z * f.moment < (t.z + 1) * ONE
        }),
        near.force == far.force,
        minus(far.torque.parts(), near.torque.parts()) == cross(arm, far.force.parts()),
{
    let (x, y, z) = (axes.x, axes.y, axes.z);
    assert(z.x * 0 == 0 && z.y * 0 == 0 && z.z * 0 == 0);
    assert(x.x * 0 == 0 && x.y * 0 == 0 && x.z * 0 == 0);
    assert(y.x * 0 == 0 && y.y * 0 == 0 && y.z * 0 == 0);
    let force = far.force.parts();
    assert(0 * force.0 == 0 && 0 * force.1 == 0 && 0 * force.2 == 0);
    assert(cross((0int, 0int, 0int), force) == (0int, 0int, 0int));
}

}
