//! Where the wheels and the hull are in the world, how a wheel moves over the
//! ground, and the force with which it answers.

use super::flight_config::{FlightModelConfig, LandingGearConfig};
use super::hull_collision::hull_points;
use super::landing_gear::{
    gear_legs, grip_of, limited, load_of, normal_force, rolling_drag, strength_sq, tyre_force,
    GearLeg, StrutContact, TyreForce,
};
use super::rigid_body::{
    in_world, mix, turning_is_bounded, unit_picks_a_component, world_vector, Axes,
};
use crate::fixed::{floor_div, is_root, root, root_exists, root_is_unique, scale, scaled, ONE};
use crate::vector::{
    cross, cross_of, cross_within, minus, mixed, plus, product_within, stretched,
    stretching_is_bounded, unit_of, unit_vector, vec3, Triple, Vec3, Wide3,
};
use vstd::prelude::*;

verus! {

/// A point of the body in the world.
pub open spec fn placed_point(origin: Triple, axes: Axes, point: Triple) -> Triple {
    plus(origin, in_world(axes, point))
}

/// Where a point of the body is in the world.
pub fn world_point(origin: &Vec3, axes: &Axes, point: &Vec3) -> (at: Vec3)
    requires
        origin.within(1_000_000_000_000_000_000),
        axes.wf(),
        point.within(1_000_000_000_000_000),
    ensures
        at.parts() == placed_point(origin.parts(), *axes, point.parts()),
{
    let turned: Wide3 = world_vector(
        axes,
        &Wide3 { x: point.x as i128, y: point.y as i128, z: point.z as i128 },
    );
    proof {
        turning_is_bounded(*axes, point.parts(), 1_000_000_000_000_000);
    }
    vec3(
        origin.x + turned.x as i64,
        origin.y + turned.y as i64,
        origin.z + turned.z as i64,
    )
}

impl LandingGearConfig {
    /// The struts are within a thousand kilometres of the body's origin.
    pub open spec fn mountable(self) -> bool {
        &&& -1_000_000_000_000_000 <= self.gear_track <= 1_000_000_000_000_000
        &&& -1_000_000_000_000_000 <= self.gear_nose_z <= 1_000_000_000_000_000
        &&& -1_000_000_000_000_000 <= self.gear_main_z <= 1_000_000_000_000_000
        &&& -1_000_000_000_000_000 <= self.gear_nose_mount_height <= 1_000_000_000_000_000
        &&& -1_000_000_000_000_000 <= self.gear_main_mount_height <= 1_000_000_000_000_000
    }
}

/// Where the three struts are mounted, in the order of [`gear_legs`].
pub fn mount_points(origin: &Vec3, axes: &Axes, config: &FlightModelConfig) -> (points: [Vec3; 3])
    requires
        origin.within(1_000_000_000_000_000_000),
        axes.wf(),
        config.landing_gear.mountable(),
    ensures
        ({
            let g = config.landing_gear;
            let half = g.gear_track as int / 2;
            let o = origin.parts();
            &&& points@[0].parts() == placed_point(
                o,
                *axes,
                (0int, g.gear_nose_mount_height as int, g.gear_nose_z as int),
            )
            &&& points@[1].parts() == placed_point(
                o,
                *axes,
                (-half, g.gear_main_mount_height as int, g.gear_main_z as int),
            )
            &&& points@[2].parts() == placed_point(
                o,
                *axes,
                (half, g.gear_main_mount_height as int, g.gear_main_z as int),
            )
        }),
{
    let legs: [GearLeg; 3] = gear_legs(config);
    [
        world_point(origin, axes, &legs[0].mount),
        world_point(origin, axes, &legs[1].mount),
        world_point(origin, axes, &legs[2].mount),
    ]
}

/// Where the hull's points are, in the order of [`hull_points`].
pub fn hull_places(origin: &Vec3, axes: &Axes) -> (places: [Vec3; 4])
    requires
        origin.within(1_000_000_000_000_000_000),
        axes.wf(),
    ensures
        ({
            let o = origin.parts();
            &&& places@[0].parts() == placed_point(o, *axes, (0int, 0int, 6_000_000_000int))
            &&& places@[1].parts() == placed_point(
                o,
                *axes,
                (0int, 300_000_000int, -6_000_000_000int),
            )
            &&& places@[2].parts() == placed_point(
                o,
                *axes,
                (-5_500_000_000int, 0int, 500_000_000int),
            )
            &&& places@[3].parts() == placed_point(
                o,
                *axes,
                (5_500_000_000int, 0int, 500_000_000int),
            )
        }),
{
    let points: [Vec3; 4] = hull_points();
    [
        world_point(origin, axes, &points[0]),
        world_point(origin, axes, &points[1]),
        world_point(origin, axes, &points[2]),
        world_point(origin, axes, &points[3]),
    ]
}

/// The point where a strut touches the ground: its reach below the mount, against
/// the body's up.
pub fn contact_point(mount: &Vec3, axes: &Axes, reach: i64) -> (at: Vec3)
    requires
        mount.within(2_000_000_000_000_000_000),
        axes.wf(),
        0 <= reach <= 1_000_000_000_000,
    ensures
        at.parts() == minus(mount.parts(), stretched(axes.y.parts(), reach as int)),
{
    proof {
        product_within(axes.y.x as int, reach as int, ONE as int, 1_000_000_000_000);
        product_within(axes.y.y as int, reach as int, ONE as int, 1_000_000_000_000);
        product_within(axes.y.z as int, reach as int, ONE as int, 1_000_000_000_000);
    }
    vec3(
        mount.x - scale(axes.y.x, reach) as i64,
        mount.y - scale(axes.y.y, reach) as i64,
        mount.z - scale(axes.y.z, reach) as i64,
    )
}

/// The velocity of a point of the body at an arm from the center of mass.
pub fn point_velocity(velocity: &Vec3, rates: &Vec3, arm: &Vec3) -> (v: Vec3)
    requires
        velocity.within(1_000_000_000_000_000),
        rates.within(1_000_000_000_000),
        arm.within(100_000_000_000),
    ensures
        v.parts() == plus(velocity.parts(), cross(rates.parts(), arm.parts())),
{
    let wide: Wide3 = Wide3 { x: arm.x as i128, y: arm.y as i128, z: arm.z as i128 };
    let turning: Wide3 = cross_of(rates, &wide);
    proof {
        cross_within(rates.parts(), arm.parts(), 1_000_000_000_000, 100_000_000_000);
    }
    vec3(
        velocity.x + turning.x as i64,
        velocity.y + turning.y as i64,
        velocity.z + turning.z as i64,
    )
}

/// What is square to the body's up of a vector.
pub open spec fn levelled(axes: Axes, v: Triple) -> Triple {
    minus(v, stretched(axes.y.parts(), mix(axes.y.parts(), v)))
}

/// How a wheel moves over the ground: how fast its strut is pushed together, where
/// it heads, how fast it rolls there, and its sideways velocity.
#[derive(Clone, Copy, Debug, PartialEq, Eq, Structural)]
pub struct WheelMotion {
    pub sink: i64,
    pub heading: Vec3,
    pub rolling: i64,
    pub slide: Vec3,
}

/// The motion splits the velocity: along the strut, along the nose's heading over
/// the ground, and what is left.
pub open spec fn splits(m: WheelMotion, axes: Axes, v: Triple) -> bool {
    let heading = unit_of(levelled(axes, axes.z.parts()));
    let tangent = levelled(axes, v);
    &&& m.sink == -mix(axes.y.parts(), v)
    &&& m.heading.parts() == heading
    &&& m.rolling == mix(heading, tangent)
    &&& m.slide.parts() == minus(tangent, stretched(heading, mix(heading, tangent)))
}

/// What is square to the body's up of a vector of up to 3000 units.
fn level(axes: &Axes, v: &Vec3) -> (r: Vec3)
    requires
        axes.wf(),
        v.within(3_000_000_000_000),
    ensures
        r.parts() == levelled(*axes, v.parts()),
        r.within(13_000_000_000_000),
        v.within(ONE as int) ==> r.within(5 * ONE),
{
    let wide: Wide3 = Wide3 { x: v.x as i128, y: v.y as i128, z: v.z as i128 };
    proof {
        product_within(axes.y.x as int, v.x as int, ONE as int, 3_000_000_000_000);
        product_within(axes.y.y as int, v.y as int, ONE as int, 3_000_000_000_000);
        product_within(axes.y.z as int, v.z as int, ONE as int, 3_000_000_000_000);
        if v.within(ONE as int) {
            product_within(axes.y.x as int, v.x as int, ONE as int, ONE as int);
            product_within(axes.y.y as int, v.y as int, ONE as int, ONE as int);
            product_within(axes.y.z as int, v.z as int, ONE as int, ONE as int);
        }
    }
    let rise: i64 = mixed(&axes.y, &wide) as i64;
    proof {
        stretching_is_bounded(axes.y.parts(), rise as int, ONE as int, 9_000_000_000_000);
        if v.within(ONE as int) {
            stretching_is_bounded(axes.y.parts(), rise as int, ONE as int, 3 * ONE);
        }
    }
    vec3(
        v.x - scale(axes.y.x, rise) as i64,
        v.y - scale(axes.y.y, rise) as i64,
        v.z - scale(axes.y.z, rise) as i64,
    )
}

/// How a wheel of a body with these axes moves over the ground when it has the
/// given velocity.
pub fn wheel_motion(axes: &Axes, v: &Vec3) -> (m: WheelMotion)
    requires
        axes.wf(),
        v.within(3_000_000_000_000),
    ensures
        splits(m, *axes, v.parts()),
{
    let wide: Wide3 = Wide3 { x: v.x as i128, y: v.y as i128, z: v.z as i128 };
    proof {
        product_within(axes.y.x as int, v.x as int, ONE as int, 3_000_000_000_000);
        product_within(axes.y.y as int, v.y as int, ONE as int, 3_000_000_000_000);
        product_within(axes.y.z as int, v.z as int, ONE as int, 3_000_000_000_000);
    }
    let rise: i64 = mixed(&axes.y, &wide) as i64;
    let tangent: Vec3 = level(axes, v);
    let heading: Vec3 = unit_vector(&level(axes, &axes.z));
    let over: Wide3 = Wide3 {
        x: tangent.x as i128,
        y: tangent.y as i128,
        z: tangent.z as i128,
    };
    proof {
        product_within(heading.x as int, over.x as int, 3 * ONE, 13_000_000_000_000);
        product_within(heading.y as int, over.y as int, 3 * ONE, 13_000_000_000_000);
        product_within(heading.z as int, over.z as int, 3 * ONE, 13_000_000_000_000);
    }
    let rolling: i64 = mixed(&heading, &over) as i64;
    proof {
        stretching_is_bounded(heading.parts(), rolling as int, 3 * ONE, 117_000_000_000_000);
    }
    WheelMotion {
        sink: -rise,
        heading,
        rolling,
        slide: vec3(
            tangent.x - scale(heading.x, rolling) as i64,
            tangent.y - scale(heading.y, rolling) as i64,
            tangent.z - scale(heading.z, rolling) as i64,
        ),
    }
}

/// On level wheels the velocity splits along the world's axes: down is sink, ahead
/// is rolling, and sideways is slide.
pub proof fn level_wheels_split_the_velocity(m: WheelMotion, axes: Axes, v: Triple)
    requires
        axes.y.parts() == (0int, ONE as int, 0int),
        axes.z.parts() == (0int, 0int, ONE as int),
        splits(m, axes, v),
    ensures
        m.sink == -v.1,
        m.rolling == v.2,
        m.slide.parts() == (v.0, 0int, 0int),
{
    let up = axes.y.parts();
    let ahead = axes.z.parts();
    lemma_unit_stretch(up, mix(up, v));
    unit_picks_a_component(up, v);
    lemma_unit_stretch(up, mix(up, ahead));
    unit_picks_a_component(up, ahead);
    let nose = levelled(axes, ahead);
    assert(nose == (0int, 0int, ONE as int));
    let n: int = 1_000_000_000_000_000_000;
    assert(1_000_000_000int * 1_000_000_000int == n);
    assert(1_000_000_001int * 1_000_000_001int > n);
    assert(is_root(1_000_000_000, n));
    root_exists(n);
    root_is_unique(1_000_000_000, root(n), n);
    assert(nose.0 * nose.0 + nose.1 * nose.1 + nose.2 * nose.2 == n);
    let heading = unit_of(nose);
    assert(heading == ((nose.0 * ONE) / 1_000_000_000, (nose.1 * ONE) / 1_000_000_000, (nose.2
        * ONE) / 1_000_000_000));
    assert(heading == (0int, 0int, ONE as int));
    let tangent = levelled(axes, v);
    assert(tangent == (v.0, 0int, v.2));
    unit_picks_a_component(heading, tangent);
    lemma_unit_stretch(heading, mix(heading, tangent));
}

proof fn lemma_unit_stretch(a: Triple, by: int)
    ensures
        a == (0int, ONE as int, 0int) ==> stretched(a, by) == (0int, by, 0int),
        a == (0int, 0int, ONE as int) ==> stretched(a, by) == (0int, 0int, by),
{
    assert(0 * by == 0);
}

/// The wheel's answer to the ground: the strut's load along the body's up, the
/// tyre's grip against sliding, and its drag along the heading.
pub open spec fn answer(
    gear: LandingGearConfig,
    axes: Axes,
    contact: StrutContact,
    m: WheelMotion,
    smooth: int,
    braking: bool,
) -> Triple {
    let load = load_of(gear, contact.compression as int, m.sink as int);
    let crr = gear.gear_rolling_resistance + if braking {
        gear.gear_brake_strength as int
    } else {
        0
    };
    plus(
        plus(stretched(axes.y.parts(), load), limited(grip_of(gear, m.slide), load)),
        stretched(m.heading.parts(), rolling_drag(crr, load, smooth)),
    )
}

proof fn lemma_rolling(crr: int, load: int, smooth: int)
    requires
        0 <= crr <= 2_000_000_000_000,
        0 <= load <= 0x7fff_ffff_ffff_ffff,
        -ONE <= smooth <= ONE,
    ensures
        -20_000_000_000_000_000_000_000 <= rolling_drag(crr, load, smooth)
            <= 20_000_000_000_000_000_000_000,
{
    product_within(crr, load, 2_000_000_000_000, 0x7fff_ffff_ffff_ffff);
    let s = scaled(crr, load);
    let m = if smooth >= 0 {
        smooth
    } else {
        -smooth
    };
    product_within(s, m, 19_000_000_000_000_000_000_000, ONE as int);
}

/// The force on a wheel that touches the ground. `smooth` is the direction in which
/// it rolls, smoothed through zero so that a parked aircraft does not jitter.
pub fn wheel_force(
    gear: &LandingGearConfig,
    axes: &Axes,
    contact: &StrutContact,
    m: &WheelMotion,
    smooth: i64,
    braking: bool,
) -> (force: Wide3)
    requires
        gear.sound(),
        axes.wf(),
        0 <= contact.compression <= 1_000_000_000_000,
        -1_000_000_000_000 <= m.sink <= 1_000_000_000_000,
        m.heading.within(3 * ONE),
        m.slide.within(1_000_000_000_000),
        -ONE <= smooth <= ONE,
    ensures
        force.parts() == answer(*gear, *axes, *contact, *m, smooth as int, braking),
{
    let load: i64 = normal_force(gear, contact.compression, m.sink);
    let tyre: TyreForce = tyre_force(gear, load, &m.slide, smooth, braking);
    let drag: i128 = tyre.rolling;
    proof {
        lemma_rolling(
            gear.gear_rolling_resistance + if braking {
                gear.gear_brake_strength as int
            } else {
                0
            },
            load as int,
            smooth as int,
        );
        product_within(m.heading.x as int, drag as int, 3 * ONE, 20_000_000_000_000_000_000_000);
        product_within(m.heading.y as int, drag as int, 3 * ONE, 20_000_000_000_000_000_000_000);
        product_within(m.heading.z as int, drag as int, 3 * ONE, 20_000_000_000_000_000_000_000);
    }
    Wide3 {
        x: scale(axes.y.x, load) + tyre.lateral.x as i128 + floor_div(
            m.heading.x as i128 * drag,
            1_000_000_000,
        ),
        y: scale(axes.y.y, load) + tyre.lateral.y as i128 + floor_div(
            m.heading.y as i128 * drag,
            1_000_000_000,
        ),
        z: scale(axes.y.z, load) + tyre.lateral.z as i128 + floor_div(
            m.heading.z as i128 * drag,
            1_000_000_000,
        ),
    }
}

/// A wheel at rest is only pushed along the strut.
pub proof fn parked_wheel_is_pushed_along_the_strut(
    gear: LandingGearConfig,
    axes: Axes,
    contact: StrutContact,
    m: WheelMotion,
    braking: bool,
)
    requires
        gear.sound(),
        m.slide.parts() == (0int, 0int, 0int),
    ensures
        answer(gear, axes, contact, m, 0, braking) == stretched(
            axes.y.parts(),
            load_of(gear, contact.compression as int, m.sink as int),
        ),
{
    let load = load_of(gear, contact.compression as int, m.sink as int);
    assert forall|a: int| #[trigger] scaled(a, 0) == 0 by {
        assert(a * 0 == 0);
    }
    assert(grip_of(gear, m.slide) == (0int, 0int, 0int));
    assert(load * load >= 0) by (nonlinear_arith);
    let grip = grip_of(gear, m.slide);
    assert(strength_sq(grip) == 0) by (nonlinear_arith)
        requires
            strength_sq(grip) == grip.0 * grip.0 + grip.1 * grip.1 + grip.2 * grip.2,
            grip.0 == 0,
            grip.1 == 0,
            grip.2 == 0,
    ;
    assert(limited(grip, load) == (0int, 0int, 0int));
}

}
