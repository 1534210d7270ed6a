//! How the loads on the surfaces, the engine and the fuselage act on the aircraft
//! as a whole.
//!
//! Directions are given by where the axes of a frame point in the world, so that a
//! rotation is three vectors of unit length.

use super::aero_model::{force_in_range, is_force, Coefficients, SurfaceForce};
use super::aero_surface_config::AeroSurfaceConfig;
use super::aircraft_physics::{
    axis_drag, damping_torque, drag_along, lift_share, not_below_zero, predict_velocity, predicted,
    reading, report_flight, rotational_damping,
};
use super::bi_vector3::{share, BiVector3};
use super::flight_config::FlightModelConfig;
use crate::fixed::{clamp, scaled, ONE};
use crate::plane::PlaneState;
use crate::vector::{
    cross, cross_of, cross_within, length, length_of, length_sq, minus, mixed, plus,
    product_within, unit_of, unit_vector, vec3, Triple, Vec3, Wide3,
};
use vstd::prelude::*;

verus! {

/// Where the axes of a frame point in the world. A body's are its right, its up and
/// its nose; a surface's are its chord, its normal and its span.
#[derive(Clone, Copy, Debug, PartialEq, Eq, Structural)]
pub struct Axes {
    pub x: Vec3,
    pub y: Vec3,
    pub z: Vec3,
}

impl Axes {
    /// No direction is longer than one along any world axis.
    pub open spec fn wf(self) -> bool {
        self.x.within(ONE as int) && self.y.within(ONE as int) && self.z.within(ONE as int)
    }
}

/// A sum of three products with nine decimals.
pub open spec fn mix(a: Triple, v: Triple) -> int {
    (a.0 * v.0 + a.1 * v.1 + a.2 * v.2) / (ONE as int)
}

/// A vector given in a frame, in world axes.
pub open spec fn in_world(axes: Axes, v: Triple) -> Triple {
    (
        mix((axes.x.x as int, axes.y.x as int, axes.z.x as int), v),
        mix((axes.x.y as int, axes.y.y as int, axes.z.y as int), v),
        mix((axes.x.z as int, axes.y.z as int, axes.z.z as int), v),
    )
}

/// A vector given in world axes, in a frame.
pub open spec fn in_frame(axes: Axes, v: Triple) -> Triple {
    (mix(axes.x.parts(), v), mix(axes.y.parts(), v), mix(axes.z.parts(), v))
}

/// No component is beyond `limit` either way.
pub open spec fn bounded(v: Triple, limit: int) -> bool {
    &&& -limit <= v.0 <= limit
    &&& -limit <= v.1 <= limit
    &&& -limit <= v.2 <= limit
}

proof fn lemma_mix(a: Triple, v: Triple, limit: int)
    requires
        bounded(a, ONE as int),
        bounded(v, limit),
    ensures
        -(3 * limit) <= mix(a, v) <= 3 * limit,
        -(ONE * limit) <= a.0 * v.0 <= ONE * limit,
        -(ONE * limit) <= a.1 * v.1 <= ONE * limit,
        -(ONE * limit) <= a.2 * v.2 <= ONE * limit,
{
    product_within(a.0, v.0, ONE as int, limit);
    product_within(a.1, v.1, ONE as int, limit);
    product_within(a.2, v.2, ONE as int, limit);
}

/// Turning a vector makes no component more than three times as large.
pub proof fn turning_is_bounded(axes: Axes, v: Triple, limit: int)
    requires
        axes.wf(),
        bounded(v, limit),
    ensures
        bounded(in_world(axes, v), 3 * limit),
        bounded(in_frame(axes, v), 3 * limit),
{
    lemma_mix((axes.x.x as int, axes.y.x as int, axes.z.x as int), v, limit);
    lemma_mix((axes.x.y as int, axes.y.y as int, axes.z.y as int), v, limit);
    lemma_mix((axes.x.z as int, axes.y.z as int, axes.z.z as int), v, limit);
    lemma_mix(axes.x.parts(), v, limit);
    lemma_mix(axes.y.parts(), v, limit);
    lemma_mix(axes.z.parts(), v, limit);
}

/// A unit along an axis picks out the component along it.
pub proof fn unit_picks_a_component(a: Triple, v: Triple)
    ensures
        a == (ONE as int, 0int, 0int) ==> mix(a, v) == v.0,
        a == (0int, ONE as int, 0int) ==> mix(a, v) == v.1,
        a == (0int, 0int, ONE as int) ==> mix(a, v) == v.2,
{
    assert forall|p: int, q: int| p == 0 implies #[trigger] (p * q) == 0 by {
        assert(p * q == 0) by (nonlinear_arith)
            requires
                p == 0,
        ;
    }
    assert forall|p: int, q: int| p == ONE implies #[trigger] (p * q) == ONE * q by {
        assert(p * q == 1_000_000_000 * q) by (nonlinear_arith)
            requires
                p == 1_000_000_000,
        ;
    }
}

/// In a frame that is level with the world, a vector is what it is in the world.
pub proof fn level_frame_changes_nothing(axes: Axes, v: Triple)
    requires
        axes.x.parts() == (ONE as int, 0int, 0int),
        axes.y.parts() == (0int, ONE as int, 0int),
        axes.z.parts() == (0int, 0int, ONE as int),
    ensures
        in_world(axes, v) == v,
        in_frame(axes, v) == v,
{
    unit_picks_a_component(axes.x.parts(), v);
    unit_picks_a_component(axes.y.parts(), v);
    unit_picks_a_component(axes.z.parts(), v);
}

/// A component along a direction, where the products leave room.
fn along(direction: &Vec3, v: &Wide3) -> (r: i128)
    requires
        direction.within(ONE as int),
        v.within(40_000_000_000_000_000_000_000_000_000_000_000),
    ensures
        r == mix(direction.parts(), v.parts()),
{
    mixed(direction, v)
}

/// A vector given in a frame, in world axes.
pub fn world_vector(axes: &Axes, v: &Wide3) -> (r: Wide3)
    requires
        axes.wf(),
        v.within(40_000_000_000_000_000_000_000_000_000_000_000),
    ensures
        r.parts() == in_world(*axes, v.parts()),
{
    Wide3 {
        x: along(&vec3(axes.x.x, axes.y.x, axes.z.x), v),
        y: along(&vec3(axes.x.y, axes.y.y, axes.z.y), v),
        z: along(&vec3(axes.x.z, axes.y.z, axes.z.z), v),
    }
}

/// A vector given in world axes, in a frame.
pub fn frame_vector(axes: &Axes, v: &Wide3) -> (r: Wide3)
    requires
        axes.wf(),
        v.within(40_000_000_000_000_000_000_000_000_000_000_000),
    ensures
        r.parts() == in_frame(*axes, v.parts()),
{
    Wide3 { x: along(&axes.x, v), y: along(&axes.y, v), z: along(&axes.z, v) }
}

/// The velocity of the air against a point of the aircraft: against its own motion,
/// and against what its rotation adds at that arm from the center of mass.
pub open spec fn air_at(velocity: Triple, rates: Triple, arm: Triple) -> Triple {
    let turning = cross(rates, arm);
    (-velocity.0 - turning.0, -velocity.1 - turning.1, -velocity.2 - turning.2)
}

/// The velocity of the air against a surface at an arm from the center of mass.
pub fn air_over(velocity: &Vec3, rates: &Vec3, arm: &Vec3) -> (air: Vec3)
    requires
        velocity.within(1_000_000_000_000_000),
        rates.within(1_000_000_000_000_000),
        arm.within(100_000_000_000),
    ensures
        air.parts() == air_at(velocity.parts(), rates.parts(), arm.parts()),
{
    let wide: Wide3 = Wide3 { x: arm.x as i128, y: arm.y as i128, z: arm.z as i128 };
    let turning: Wide3 = cross_of(rates, &wide);
    proof {
        cross_within(rates.parts(), arm.parts(), 1_000_000_000_000_000, 100_000_000_000);
    }
    vec3(
        (-(velocity.x as i128) - turning.x) as i64,
        (-(velocity.y as i128) - turning.y) as i64,
        (-(velocity.z as i128) - turning.z) as i64,
    )
}

/// Without rotation every surface meets the same air: the flight path reversed.
pub proof fn steady_flight_meets_even_air(velocity: Triple, arm: Triple)
    ensures
        air_at(velocity, (0int, 0int, 0int), arm) == (-velocity.0, -velocity.1, -velocity.2),
{
}

/// The load of one surface leaves room for the sum over all of them.
pub open spec fn load_in_range(load: BiVector3) -> bool {
    &&& load.force.within(30_000_000_000_000_000_000_000_000_000)
    &&& load.torque.within(10_000_000_000_000_000_000_000_000_000_000)
}

/// The load of a surface on the aircraft: its force in world axes, and the torque
/// of that force at its arm together with the moment about the span.
pub open spec fn is_load(load: BiVector3, f: SurfaceForce, axes: Axes, arm: Triple) -> bool {
    let force = in_world(axes, (f.x as int, f.y as int, 0int));
    &&& load.force.parts() == force
    &&& load.torque.parts() == plus(
        cross(arm, force),
        in_world(axes, (0int, 0int, f.moment as int)),
    )
}

/// The load of a surface whose own axes are given, at an arm from the center of
/// mass.
pub fn surface_load(f: &SurfaceForce, axes: &Axes, arm: &Vec3) -> (load: BiVector3)
    requires
        force_in_range(*f),
        axes.wf(),
        arm.within(100_000_000_000),
    ensures
        is_load(load, *f, *axes, arm.parts()),
        load_in_range(load),
{
    let local: Wide3 = Wide3 { x: f.x, y: f.y, z: 0 };
    let force: Wide3 = world_vector(axes, &local);
    let twist: Wide3 = world_vector(axes, &Wide3 { x: 0, y: 0, z: f.moment });
    proof {
        turning_is_bounded(*axes, local.parts(), 10_000_000_000_000_000_000_000_000_000);
        turning_is_bounded(
            *axes,
            (0int, 0int, f.moment as int),
            20_000_000_000_000_000_000_000_000_000,
        );
        cross_within(
            arm.parts(),
            force.parts(),
            100_000_000_000,
            30_000_000_000_000_000_000_000_000_000,
        );
    }
    let lever: Wide3 = cross_of(arm, &force);
    BiVector3 {
        force,
        torque: Wide3 { x: lever.x + twist.x, y: lever.y + twist.y, z: lever.z + twist.z },
    }
}

/// A force whose line runs through the center of mass does not turn the aircraft.
pub proof fn centred_force_makes_no_torque(arm: Triple, k: int)
    ensures
        cross(arm, (k * arm.0, k * arm.1, k * arm.2)) == (0int, 0int, 0int),
{
    assert(arm.1 * (k * arm.2) == arm.2 * (k * arm.1)) by (nonlinear_arith);
    assert(arm.2 * (k * arm.0) == arm.0 * (k * arm.2)) by (nonlinear_arith);
    assert(arm.0 * (k * arm.1) == arm.1 * (k * arm.0)) by (nonlinear_arith);
}

/// A surface on which nothing acts does not load the aircraft, wherever it is mounted.
pub proof fn still_surface_loads_nothing(load: BiVector3, axes: Axes, arm: Triple)
    requires
        is_load(load, (SurfaceForce { x: 0, y: 0, moment: 0 }), axes, arm),
    ensures
        load.force.parts() == (0int, 0int, 0int),
        load.torque.parts() == (0int, 0int, 0int),
{
    assert(in_world(axes, (0int, 0int, 0int)) == (0int, 0int, 0int));
    assert(arm.0 * 0 == 0 && arm.1 * 0 == 0 && arm.2 * 0 == 0);
    assert(cross(arm, (0int, 0int, 0int)) == (0int, 0int, 0int));
}

/// A surface loads the aircraft with the same force wherever it is mounted, and its
/// arm adds the torque of that force: at the center of mass only the moment about
/// the span is left.
pub proof fn arm_adds_the_torque_of_the_force(
    f: SurfaceForce,
    axes: Axes,
    arm: Triple,
    at_center: BiVector3,
    at_arm: BiVector3,
)
    requires
        is_load(at_center, f, axes, (0int, 0int, 0int)),
        is_load(at_arm, f, axes, arm),
    ensures
        at_arm.force.parts() == at_center.force.parts(),
        at_center.torque.parts() == in_world(axes, (0int, 0int, f.moment as int)),
        at_arm.torque.parts() == plus(
            at_center.torque.parts(),
            cross(arm, at_center.force.parts()),
        ),
{
    assert(cross((0int, 0int, 0int), at_center.force.parts()) == (0int, 0int, 0int));
}

/// The loads of a surface at two arms differ by the torque of its force at the
/// difference of the arms, but for the last decimal.
pub proof fn two_arms_differ_by_their_lever(
    f: SurfaceForce,
    axes: Axes,
    near: Triple,
    far: Triple,
    at_near: BiVector3,
    at_far: BiVector3,
)
    requires
        is_load(at_near, f, axes, near),
        is_load(at_far, f, axes, far),
    ensures
        at_far.force.parts() == at_near.force.parts(),
        ({
            let lever = cross(minus(far, near), at_near.force.parts());
            let extra = minus(at_far.torque.parts(), at_near.torque.parts());
            bounded(minus(extra, lever), 1)
        }),
{
    let v = at_near.force.parts();
    let d = minus(far, near);
    assert(d.1 * v.2 - d.2 * v.1 == (far.1 * v.2 - far.2 * v.1) - (near.1 * v.2 - near.2 * v.1))
        by (nonlinear_arith)
        requires
            d.1 == far.1 - near.1,
            d.2 == far.2 - near.2,
    ;
    assert(d.2 * v.0 - d.0 * v.2 == (far.2 * v.0 - far.0 * v.2) - (near.2 * v.0 - near.0 * v.2))
        by (nonlinear_arith)
        requires
            d.0 == far.0 - near.0,
            d.2 == far.2 - near.2,
    ;
    assert(d.0 * v.1 - d.1 * v.0 == (far.0 * v.1 - far.1 * v.0) - (near.0 * v.1 - near.1 * v.0))
        by (nonlinear_arith)
        requires
            d.0 == far.0 - near.0,
            d.1 == far.1 - near.1,
    ;
}

/// The scalar product of two directions, with eighteen decimals.
pub open spec fn dot(a: Triple, b: Triple) -> int {
    a.0 * b.0 + a.1 * b.1 + a.2 * b.2
}

proof fn lemma_dot_with_step(a: Triple, v: Triple, z: Triple, k: int)
    ensures
        dot(a, plus(v, (k * z.0, k * z.1, k * z.2))) == dot(a, v) + k * dot(a, z),
{
    assert(a.0 * (v.0 + k * z.0) == a.0 * v.0 + k * (a.0 * z.0)) by (nonlinear_arith);
    assert(a.1 * (v.1 + k * z.1) == a.1 * v.1 + k * (a.1 * z.1)) by (nonlinear_arith);
    assert(a.2 * (v.2 + k * z.2) == a.2 * v.2 + k * (a.2 * z.2)) by (nonlinear_arith);
    let (p, q, r) = (a.0 * z.0, a.1 * z.1, a.2 * z.2);
    assert(k * (p + q + r) == k * p + k * q + k * r) by (nonlinear_arith);
}

/// Air that moves along a surface's span changes nothing about its force: where the
/// span is square to the chord and the normal, what counts of the air is the same.
pub proof fn air_along_the_span_is_ignored(
    axes: Axes,
    air: Triple,
    k: int,
    f: SurfaceForce,
    c: Coefficients,
    density: int,
    config: AeroSurfaceConfig,
)
    requires
        dot(axes.x.parts(), axes.z.parts()) == 0,
        dot(axes.y.parts(), axes.z.parts()) == 0,
    ensures
        ({
            let z = axes.z.parts();
            let a = in_frame(axes, air);
            let b = in_frame(axes, plus(air, (k * z.0, k * z.1, k * z.2)));
            &&& b.0 == a.0
            &&& b.1 == a.1
            &&& is_force(f, c, density, b.0, b.1, config) <==> is_force(
                f,
                c,
                density,
                a.0,
                a.1,
                config,
            )
        }),
{
    lemma_dot_with_step(axes.x.parts(), air, axes.z.parts(), k);
    lemma_dot_with_step(axes.y.parts(), air, axes.z.parts(), k);
    assert(k * 0 == 0);
}

/// Axes that are square but for rounding ignore air along the span but for rounding:
/// it counts by no more than the slack of the axes.
pub proof fn air_along_the_span_counts_as_slack(axes: Axes, air: Triple, k: int, slack: int)
    requires
        0 <= k,
        -slack <= dot(axes.x.parts(), axes.z.parts()) <= slack,
        -slack <= dot(axes.y.parts(), axes.z.parts()) <= slack,
    ensures
        ({
            let z = axes.z.parts();
            let a = in_frame(axes, air);
            let b = in_frame(axes, plus(air, (k * z.0, k * z.1, k * z.2)));
            let most = scaled(k, slack) + 1;
            &&& -most <= b.0 - a.0 <= most
            &&& -most <= b.1 - a.1 <= most
        }),
{
    lemma_dot_with_step(axes.x.parts(), air, axes.z.parts(), k);
    lemma_dot_with_step(axes.y.parts(), air, axes.z.parts(), k);
    product_within(k, dot(axes.x.parts(), axes.z.parts()), k, slack);
    product_within(k, dot(axes.y.parts(), axes.z.parts()), k, slack);
}

/// Equal lift on both wings does not roll the aircraft, but for the last decimal,
/// and both wings pitch it alike.
pub proof fn mirrored_lift_does_not_roll(arm: Triple, lift: int)
    ensures
        ({
            let right = cross(arm, (0int, lift, 0int));
            let left = cross((-arm.0, arm.1, arm.2), (0int, lift, 0int));
            &&& -1 <= right.2 + left.2 <= 0
            &&& right.0 == left.0
        }),
{
    assert((-arm.0) * lift == -(arm.0 * lift)) by (nonlinear_arith);
}

/// The forces of all loads together.
pub open spec fn force_total(loads: Seq<BiVector3>) -> Triple
    decreases loads.len(),
{
    if loads.len() == 0 {
        (0int, 0int, 0int)
    } else {
        plus(force_total(loads.drop_last()), loads.last().force.parts())
    }
}

/// The torques of all loads together.
pub open spec fn torque_total(loads: Seq<BiVector3>) -> Triple
    decreases loads.len(),
{
    if loads.len() == 0 {
        (0int, 0int, 0int)
    } else {
        plus(torque_total(loads.drop_last()), loads.last().torque.parts())
    }
}

/// The sum of all loads leaves room for what else acts.
pub open spec fn total_in_range(total: BiVector3) -> bool {
    &&& total.force.within(3_000_000_000_000_000_000_000_000_000_000)
    &&& total.torque.within(1_000_000_000_000_000_000_000_000_000_000_000)
}

/// The loads of all surfaces together; an aircraft has at most a hundred.
pub fn sum_aero_forces(loads: &Vec<BiVector3>) -> (total: BiVector3)
    requires
        loads@.len() <= 100,
        forall|i: int| 0 <= i < loads@.len() ==> load_in_range(#[trigger] loads@[i]),
    ensures
        total.force.parts() == force_total(loads@),
        total.torque.parts() == torque_total(loads@),
        total_in_range(total),
{
    let mut total: BiVector3 = BiVector3::default();
    let mut i: usize = 0;
    while i < loads.len()
        invariant
            i <= loads@.len() <= 100,
            forall|k: int| 0 <= k < loads@.len() ==> load_in_range(#[trigger] loads@[k]),
            total.force.parts() == force_total(loads@.take(i as int)),
            total.torque.parts() == torque_total(loads@.take(i as int)),
            total.force.within(i * 30_000_000_000_000_000_000_000_000_000),
            total.torque.within(i * 10_000_000_000_000_000_000_000_000_000_000),
        decreases loads@.len() - i,
    {
        total.accumulate(&loads[i]);
        assert(loads@.take(i + 1).drop_last() =~= loads@.take(i as int));
        assert(loads@.take(i + 1).last() == loads@[i as int]);
        i += 1;
    }
    assert(loads@.take(loads@.len() as int) =~= loads@);
    total
}

/// Two groups of surfaces load the aircraft as their sum, in either order.
pub proof fn loads_add_up(a: Seq<BiVector3>, b: Seq<BiVector3>)
    ensures
        force_total(a + b) == plus(force_total(a), force_total(b)),
        torque_total(a + b) == plus(torque_total(a), torque_total(b)),
        force_total(a + b) == force_total(b + a),
        torque_total(a + b) == torque_total(b + a),
{
    lemma_totals(a, b);
    lemma_totals(b, a);
}

proof fn lemma_totals(a: Seq<BiVector3>, b: Seq<BiVector3>)
    ensures
        force_total(a + b) == plus(force_total(a), force_total(b)),
        torque_total(a + b) == plus(torque_total(a), torque_total(b)),
    decreases b.len(),
{
    if b.len() == 0 {
        assert(a + b =~= a);
    } else {
        assert((a + b).drop_last() =~= a + b.drop_last());
        assert((a + b).last() == b.last());
        lemma_totals(a, b.drop_last());
    }
}

/// An aircraft in flight: its axes, its velocity and its rates of turn in world
/// axes.
#[derive(Clone, Copy, Debug, PartialEq, Eq, Structural)]
pub struct Body {
    pub axes: Axes,
    pub velocity: Vec3,
    pub rates: Vec3,
}

impl Body {
    /// Up to a million metres and a million radians a second along each axis.
    pub open spec fn wf(self) -> bool {
        &&& self.axes.wf()
        &&& self.velocity.within(1_000_000_000_000_000)
        &&& self.rates.within(1_000_000_000_000_000)
    }
}

/// The thrust in world axes: along the nose.
pub open spec fn thrust_vector(axes: Axes, thrust: int) -> Triple {
    in_world(axes, (0int, 0int, thrust))
}

/// What the body weighs and how it resists turning: mass (kg), principal moments of
/// inertia (kg m^2) and where their axes point.
#[derive(Clone, Copy, Debug, PartialEq, Eq, Structural)]
pub struct Inertia {
    pub mass: i64,
    pub principal: Vec3,
    pub axes: Axes,
}

impl Inertia {
    /// At least one kilogram, and one kilogram square metre about each axis.
    pub open spec fn wf(self) -> bool {
        &&& ONE <= self.mass
        &&& ONE <= self.principal.x
        &&& ONE <= self.principal.y
        &&& ONE <= self.principal.z
        &&& self.axes.wf()
    }
}

/// The change of rates about the principal axes over `ahead`.
pub open spec fn turned_up(inertia: Inertia, torque: Triple, ahead: int) -> Triple {
    let t = in_frame(inertia.axes, torque);
    (
        predicted(0, t.0, inertia.principal.x as int, 0, ahead),
        predicted(0, t.1, inertia.principal.y as int, 0, ahead),
        predicted(0, t.2, inertia.principal.z as int, 0, ahead),
    )
}

/// The velocity `ahead` of now under a force, with gravity pulling down.
pub open spec fn velocity_ahead(
    velocity: Triple,
    force: Triple,
    mass: int,
    gravity: int,
    ahead: int,
) -> Triple {
    (
        predicted(velocity.0, force.0, mass, 0, ahead),
        predicted(velocity.1, force.1, mass, gravity, ahead),
        predicted(velocity.2, force.2, mass, 0, ahead),
    )
}

proof fn lemma_step(force: int, mass: int, ahead: int, limit: int)
    requires
        -limit <= force <= limit,
        ONE <= mass,
        0 <= ahead <= 10 * ONE,
    ensures
        -(10 * limit + 10) <= predicted(0, force, mass, 0, ahead) <= 10 * limit + 10,
{
    let n = force * ONE;
    let a = n / mass;
    vstd::arithmetic::div_mod::lemma_fundamental_div_mod(n, mass);
    let r = n % mass;
    assert(-(limit + 1) <= a <= limit) by (nonlinear_arith)
        requires
            n == mass * a + r,
            0 <= r < mass,
            1_000_000_000 <= mass,
            -(limit * 1_000_000_000) <= n <= limit * 1_000_000_000,
            0 <= limit,
    ;
    product_within(a, ahead, limit + 1, 10 * ONE);
    assert((limit + 1) * (10 * ONE) == (10 * limit + 10) * ONE) by (nonlinear_arith);
}

/// Velocity and rates `ahead` of now, under the loads and the thrust.
pub open spec fn motion_ahead(
    body: Body,
    inertia: Inertia,
    force: Triple,
    torque: Triple,
    thrust: int,
    gravity: int,
    ahead: int,
) -> (Triple, Triple) {
    (
        velocity_ahead(
            body.velocity.parts(),
            plus(force, thrust_vector(body.axes, thrust)),
            inertia.mass as int,
            gravity,
            ahead,
        ),
        plus(body.rates.parts(), in_world(inertia.axes, turned_up(inertia, torque, ahead))),
    )
}

/// The motion a part of a step ahead, for the second evaluation of the loads: the
/// velocity under the loads and the thrust, and the rates under the torques.
pub fn predict_motion(
    body: &Body,
    inertia: &Inertia,
    loads: &BiVector3,
    thrust: i64,
    config: &FlightModelConfig,
    dt: u64,
) -> (motion: (Wide3, Wide3))
    requires
        body.wf(),
        inertia.wf(),
        total_in_range(*loads),
        0 <= config.prediction_fraction <= ONE,
        dt <= 10_000_000_000,
    ensures
        (motion.0.parts(), motion.1.parts()) == motion_ahead(
            *body,
            *inertia,
            loads.force.parts(),
            loads.torque.parts(),
            thrust as int,
            config.gravity as int,
            scaled(dt as int, config.prediction_fraction as int),
        ),
{
    let fraction: i64 = config.prediction_fraction;
    let push: Wide3 = world_vector(&body.axes, &Wide3 { x: 0, y: 0, z: thrust as i128 });
    let torque: Wide3 = frame_vector(&inertia.axes, &loads.torque);
    let ghost ahead = scaled(dt as int, fraction as int);
    proof {
        turning_is_bounded(
            body.axes,
            (0int, 0int, thrust as int),
            10_000_000_000_000_000_000,
        );
        turning_is_bounded(
            inertia.axes,
            loads.torque.parts(),
            1_000_000_000_000_000_000_000_000_000_000_000,
        );
        product_within(dt as int, fraction as int, 10_000_000_000, ONE as int);
        assert(dt * fraction >= 0) by (nonlinear_arith)
            requires
                dt >= 0,
                fraction >= 0,
        ;
        let limit: int = 3_000_000_000_000_000_000_000_000_000_000_000;
        lemma_step(torque.x as int, inertia.principal.x as int, ahead, limit);
        lemma_step(torque.y as int, inertia.principal.y as int, ahead, limit);
        lemma_step(torque.z as int, inertia.principal.z as int, ahead, limit);
    }
    let velocity: Wide3 = Wide3 {
        x: predict_velocity(
            body.velocity.x,
            loads.force.x + push.x,
            inertia.mass,
            0,
            dt,
            fraction,
        ),
        y: predict_velocity(
            body.velocity.y,
            loads.force.y + push.y,
            inertia.mass,
            config.gravity,
            dt,
            fraction,
        ),
        z: predict_velocity(
            body.velocity.z,
            loads.force.z + push.z,
            inertia.mass,
            0,
            dt,
            fraction,
        ),
    };
    let step: Wide3 = Wide3 {
        x: predict_velocity(0, torque.x, inertia.principal.x, 0, dt, fraction),
        y: predict_velocity(0, torque.y, inertia.principal.y, 0, dt, fraction),
        z: predict_velocity(0, torque.z, inertia.principal.z, 0, dt, fraction),
    };
    let turn: Wide3 = world_vector(&inertia.axes, &step);
    proof {
        turning_is_bounded(
            inertia.axes,
            step.parts(),
            40_000_000_000_000_000_000_000_000_000_000_000,
        );
    }
    let rates: Wide3 = Wide3 {
        x: body.rates.x as i128 + turn.x,
        y: body.rates.y as i128 + turn.y,
        z: body.rates.z as i128 + turn.z,
    };
    (velocity, rates)
}

/// Looking nowhere ahead, the motion is as it is.
pub proof fn no_look_ahead_keeps_the_motion(
    velocity: Triple,
    force: Triple,
    mass: int,
    gravity: int,
    inertia: Inertia,
    torque: Triple,
)
    ensures
        velocity_ahead(velocity, force, mass, gravity, 0) == velocity,
        turned_up(inertia, torque, 0) == (0int, 0int, 0int),
        in_world(inertia.axes, (0int, 0int, 0int)) == (0int, 0int, 0int),
{
    assert forall|a: int| #[trigger] scaled(a, 0) == 0 by {
        assert(a * 0 == 0);
    }
}

impl FlightModelConfig {
    /// The drag coefficients are not negative, and up to a thousand.
    pub open spec fn draggable(self) -> bool {
        &&& 0 <= self.fuselage_drag.x <= 1_000_000_000_000
        &&& 0 <= self.fuselage_drag.y <= 1_000_000_000_000
        &&& 0 <= self.fuselage_drag.z <= 1_000_000_000_000
        &&& 0 <= self.aero_damp.x <= 1_000_000_000_000
        &&& 0 <= self.aero_damp.y <= 1_000_000_000_000
        &&& 0 <= self.aero_damp.z <= 1_000_000_000_000
    }
}

/// The average of two evaluations.
pub open spec fn average(a: Triple, b: Triple) -> Triple {
    share(plus(a, b), 500_000_000)
}

/// The fuselage's drag along the body axes.
pub open spec fn body_drag(config: FlightModelConfig, density: int, v: Triple) -> Triple {
    (
        drag_along(density, config.fuselage_drag.x as int, v.0),
        drag_along(density, config.fuselage_drag.y as int, v.1),
        drag_along(density, config.fuselage_drag.z as int, v.2),
    )
}

/// The rotational drag about the body axes; the coefficients are in the order roll,
/// yaw, pitch.
pub open spec fn body_damping(config: FlightModelConfig, rates: Triple, speed: int) -> Triple {
    (
        damping_torque(config.aero_damp.z as int, rates.0, speed),
        damping_torque(config.aero_damp.y as int, rates.1, speed),
        damping_torque(config.aero_damp.x as int, rates.2, speed),
    )
}

/// How much of a force is against the flight path; nothing at rest.
pub open spec fn against_path(force: Triple, velocity: Triple) -> int {
    -mix(unit_of(velocity), force)
}

/// The instruments' view of a step: forces of the surfaces and of the fuselage
/// against the flight path, and the lift.
pub open spec fn instruments_after(
    state: PlaneState,
    body: Body,
    thrust: i64,
    aero: Triple,
    drag: Triple,
    mass: int,
    gravity: int,
) -> PlaneState {
    let from_surfaces = (not_below_zero(reading(against_path(aero, body.velocity.parts()))) * 85) / 100;
    let from_fuselage = not_below_zero(reading(against_path(drag, body.velocity.parts())));
    PlaneState {
        speed: length(body.velocity) as i64,
        thrust,
        drag_surface: from_surfaces as i64,
        drag_fuselage: from_fuselage as i64,
        drag: reading(from_surfaces + from_fuselage) as i64,
        lift_pct: lift_share(reading(aero.1), mass, gravity) as i64,
        ..state
    }
}

/// The fuselage's drag in world axes.
pub open spec fn hull_drag(body: Body, density: int, config: FlightModelConfig) -> Triple {
    in_world(
        body.axes,
        body_drag(config, density, in_frame(body.axes, body.velocity.parts())),
    )
}

/// What acts on the aircraft over a step: the force of its surfaces, the thrust and the
/// fuselage's drag.
pub open spec fn step_force(
    body: Body,
    aero: Triple,
    thrust: int,
    density: int,
    config: FlightModelConfig,
) -> Triple {
    plus(plus(aero, thrust_vector(body.axes, thrust)), hull_drag(body, density, config))
}

/// What turns the aircraft over a step: the torque of its surfaces and the rotational
/// drag.
pub open spec fn step_torque(body: Body, aero: Triple, config: FlightModelConfig) -> Triple {
    plus(
        aero,
        in_world(
            body.axes,
            body_damping(
                config,
                in_frame(body.axes, body.rates.parts()),
                length(body.velocity),
            ),
        ),
    )
}

fn path_share(force: &Wide3, path: &Vec3) -> (r: i64)
    requires
        force.within(3_000_000_000_000_000_000_000_000_000_001),
        path.within(3 * ONE),
    ensures
        r == reading(-mix(path.parts(), force.parts())),
{
    proof {
        let l: int = 3_000_000_000_000_000_000_000_000_000_001;
        product_within(path.x as int, force.x as int, 3 * ONE, l);
        product_within(path.y as int, force.y as int, 3 * ONE, l);
        product_within(path.z as int, force.z as int, 3 * ONE, l);
    }
    clamp(-mixed(path, force), i64::MIN, i64::MAX)
}

proof fn lemma_damping(damp: int, rate: int, speed: int)
    requires
        0 <= damp <= 1_000_000_000_000,
        -3_000_000_000_000_000 <= rate <= 3_000_000_000_000_000,
        0 <= speed <= 10_000_000_000_000_000,
    ensures
        -100_000_000_000_000_000_000_000_000 <= damping_torque(damp, rate, speed)
            <= 100_000_000_000_000_000_000_000_000,
{
    product_within(damp, rate, 1_000_000_000_000, 3_000_000_000_000_000);
    let t = scaled(damp, rate);
    product_within(t, speed, 3_000_000_000_000_000_000, 10_000_000_000_000_000);
}

/// What acts on the aircraft over a step, given the loads of its surfaces as it
/// flies (`now`) and as it will (`ahead`): their average with the thrust along the
/// nose, the fuselage's drag along each body axis and the rotational drag about
/// each. The instruments are brought up to date.
pub fn apply_aero_forces(
    state: &mut PlaneState,
    body: &Body,
    now: &BiVector3,
    ahead: &BiVector3,
    thrust: i64,
    density: i64,
    mass: i64,
    config: &FlightModelConfig,
) -> (total: BiVector3)
    requires
        body.wf(),
        total_in_range(*now),
        total_in_range(*ahead),
        0 <= density <= 10_000_000_000,
        config.draggable(),
    ensures
        total.force.parts() == step_force(
            *body,
            average(now.force.parts(), ahead.force.parts()),
            thrust as int,
            density as int,
            *config,
        ),
        total.torque.parts() == step_torque(
            *body,
            average(now.torque.parts(), ahead.torque.parts()),
            *config,
        ),
        *final(state) == instruments_after(
            *old(state),
            *body,
            thrust,
            average(now.force.parts(), ahead.force.parts()),
            hull_drag(*body, density as int, *config),
            mass as int,
            config.gravity as int,
        ),
{
    let aero: BiVector3 = now.plus(ahead).times(500_000_000);
    let speed: i64 = length_of(&body.velocity);
    let path: Vec3 = unit_vector(&body.velocity);
    proof {
        lemma_speed(body.velocity, speed as int);
        turning_is_bounded(body.axes, body.velocity.parts(), 1_000_000_000_000_000);
        turning_is_bounded(body.axes, body.rates.parts(), 1_000_000_000_000_000);
        turning_is_bounded(
            body.axes,
            (0int, 0int, thrust as int),
            10_000_000_000_000_000_000,
        );
    }
    let v: Wide3 = frame_vector(
        &body.axes,
        &Wide3 {
            x: body.velocity.x as i128,
            y: body.velocity.y as i128,
            z: body.velocity.z as i128,
        },
    );
    let w: Wide3 = frame_vector(
        &body.axes,
        &Wide3 { x: body.rates.x as i128, y: body.rates.y as i128, z: body.rates.z as i128 },
    );
    let push: Wide3 = world_vector(&body.axes, &Wide3 { x: 0, y: 0, z: thrust as i128 });
    let local_drag: Wide3 = Wide3 {
        x: axis_drag(density, config.fuselage_drag.x, v.x as i64),
        y: axis_drag(density, config.fuselage_drag.y, v.y as i64),
        z: axis_drag(density, config.fuselage_drag.z, v.z as i64),
    };
    let drag: Wide3 = world_vector(&body.axes, &local_drag);
    let (p, q, r) = rotational_damping(
        &config.aero_damp,
        &vec3(w.x as i64, w.y as i64, w.z as i64),
        speed,
    );
    let local_damping: Wide3 = Wide3 { x: p, y: q, z: r };
    proof {
        turning_is_bounded(body.axes, local_drag.parts(), 100_000_000_000_000_000_000_000_000);
        lemma_damping(config.aero_damp.z as int, w.x as int, speed as int);
        lemma_damping(config.aero_damp.y as int, w.y as int, speed as int);
        lemma_damping(config.aero_damp.x as int, w.z as int, speed as int);
        turning_is_bounded(body.axes, local_damping.parts(), 100_000_000_000_000_000_000_000_000);
    }
    let damping: Wide3 = world_vector(&body.axes, &local_damping);
    report_flight(
        state,
        speed,
        thrust,
        path_share(&aero.force, &path),
        path_share(&drag, &path),
        clamp(aero.force.y, i64::MIN, i64::MAX),
        mass,
        config.gravity,
    );
    BiVector3 {
        force: Wide3 {
            x: aero.force.x + push.x + drag.x,
            y: aero.force.y + push.y + drag.y,
            z: aero.force.z + push.z + drag.z,
        },
        torque: Wide3 {
            x: aero.torque.x + damping.x,
            y: aero.torque.y + damping.y,
            z: aero.torque.z + damping.z,
        },
    }
}

proof fn lemma_speed(v: Vec3, speed: int)
    requires
        v.within(1_000_000_000_000_000),
        0 <= speed,
        speed * speed <= length_sq(v),
    ensures
        speed <= 10_000_000_000_000_000,
{
    let l: int = 1_000_000_000_000_000;
    product_within(v.x as int, v.x as int, l, l);
    product_within(v.y as int, v.y as int, l, l);
    product_within(v.z as int, v.z as int, l, l);
    assert(speed <= 10_000_000_000_000_000) by (nonlinear_arith)
        requires
            0 <= speed,
            speed * speed <= 3_000_000_000_000_000_000_000_000_000_000,
    ;
}

/// The fuselage's drag never pushes the aircraft along.
pub proof fn fuselage_drag_opposes_motion(density: int, cda: int, v: int)
    requires
        0 <= density,
        0 <= cda,
    ensures
        v >= 0 ==> drag_along(density, cda, v) <= 0,
        v <= 0 ==> drag_along(density, cda, v) >= 0,
{
    assert(density * cda >= 0) by (nonlinear_arith)
        requires
            0 <= density,
            0 <= cda,
    ;
    assert(v * v >= 0) by (nonlinear_arith);
    let k = scaled(density, cda);
    let s = scaled(v, v);
    assert(k * s >= 0) by (nonlinear_arith)
        requires
            0 <= k,
            0 <= s,
    ;
    if v == 0 {
        assert(v * v == 0);
        assert(k * s == 0) by (nonlinear_arith)
            requires
                s == 0,
        ;
    }
}

/// At rest in still air nothing drags on the body and nothing damps it.
pub proof fn still_aircraft_feels_no_air(
    config: FlightModelConfig,
    axes: Axes,
    density: int,
    speed: int,
)
    requires
        config.draggable(),
        0 <= density,
    ensures
        ({
            let none = (0int, 0int, 0int);
            let v = in_frame(axes, none);
            &&& in_world(axes, body_drag(config, density, v)) == none
            &&& in_world(axes, body_damping(config, v, speed)) == none
        }),
{
    let none = (0int, 0int, 0int);
    assert(in_frame(axes, none) == none);
    assert(in_world(axes, none) == none);
    fuselage_drag_opposes_motion(density, config.fuselage_drag.x as int, 0);
    fuselage_drag_opposes_motion(density, config.fuselage_drag.y as int, 0);
    fuselage_drag_opposes_motion(density, config.fuselage_drag.z as int, 0);
    assert forall|d: int| #[trigger] scaled(d, 0) == 0 by {
        assert(d * 0 == 0);
    }
    assert(scaled(0, speed) == 0) by {
        assert(0 * speed == 0);
    }
}

}
