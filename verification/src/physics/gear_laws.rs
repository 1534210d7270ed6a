//! What the landing gear does to an aircraft that touches down: laws that relate
//! one load, contact or tyre force to another.

use super::flight_config::LandingGearConfig;
use super::landing_gear::{
    contact_of, grip_of, limited, load_of, rolling_drag, root_above, strength_sq, StrutContact,
    MIN_DOWN,
};
use super::rigid_body::{dot, Axes};
use super::wheels::{answer, levelled, placed_point, splits, WheelMotion};
use crate::fixed::{root, root_exists, root_is_unique, ONE};
use crate::vector::{minus, plus, stretched, Triple, Vec3};
use vstd::prelude::*;

verus! {

/// The damper works at the rate of the damping: of two struts pushed in equally far,
/// the one that compresses faster carries more by the damping times the difference of
/// their speeds, to a nanonewton; the slower one carries as much less, down to nothing.
pub proof fn damper_carries_its_share(
    gear: LandingGearConfig,
    compression: int,
    slow: int,
    fast: int,
)
    requires
        gear.sound(),
        slow <= fast,
    ensures
        ({
            let less = load_of(gear, compression, slow);
            let more = load_of(gear, compression, fast);
            let rate = gear.gear_damping as int;
            &&& 0 <= less <= more
            &&& less > 0 ==> (more - less - 1) * ONE <= rate * (fast - slow) <= (more - less + 1)
                * ONE
            &&& less == 0 && more > 0 ==> (more - 1) * ONE <= rate * (fast - slow)
        }),
{
    let d = gear.gear_damping as int;
    assert(d * (fast - slow) == d * fast - d * slow && d * (fast - slow) >= 0) by (nonlinear_arith)
        requires
            d >= 0,
            slow <= fast,
    ;
}

/// The spring works at the rate of its stiffness: of two struts that move equally
/// fast, the one pushed in further carries more by the stiffness times the difference.
pub proof fn spring_carries_its_share(
    gear: LandingGearConfig,
    short: int,
    long: int,
    speed: int,
)
    requires
        gear.sound(),
        short <= long,
    ensures
        ({
            let less = load_of(gear, short, speed);
            let more = load_of(gear, long, speed);
            let rate = gear.gear_spring as int;
            &&& 0 <= less <= more
            &&& less > 0 ==> (more - less - 1) * ONE <= rate * (long - short) <= (more - less + 1)
                * ONE
            &&& less == 0 && more > 0 ==> (more - 1) * ONE <= rate * (long - short)
        }),
{
    let k = gear.gear_spring as int;
    assert(k * (long - short) == k * long - k * short && k * (long - short) >= 0)
        by (nonlinear_arith)
        requires
            k >= 0,
            short <= long,
    ;
}

/// A strut carries what its spring and its damper push together, and nothing where
/// together they would pull.
pub proof fn struts_push_with_spring_and_damper(
    gear: LandingGearConfig,
    compression: int,
    speed: int,
)
    ensures
        ({
            let load = load_of(gear, compression, speed);
            let push = gear.gear_spring * compression + gear.gear_damping * speed;
            &&& load * ONE <= push || load == 0
            &&& push < (load + 2) * ONE
            &&& load >= 0
        }),
{
}

/// The ground pushes a strut in by what is missing of its rest length: mount, reach
/// along the strut and ground close the triangle, and reach and compression together
/// are the rest length. It touches exactly where the ground is nearer than that.
pub proof fn contacts_close_the_triangle(mount_y: int, ground_y: int, down: int, rest: int)
    requires
        MIN_DOWN <= down,
        0 <= rest <= i64::MAX,
    ensures
        contact_of(mount_y, ground_y, down, rest) is Some <==> (mount_y - ground_y) * ONE < rest
            * down,
        contact_of(mount_y, ground_y, down, rest) matches Some(c) ==> {
            &&& c.reach + c.compression == rest
            &&& 0 <= c.reach && 0 <= c.compression
            &&& mount_y <= ground_y ==> c.compression == rest
            &&& mount_y >= ground_y ==> c.reach * down <= (mount_y - ground_y) * ONE < (c.reach + 1)
                * down
        },
{
    let n = (mount_y - ground_y) * ONE;
    vstd::arithmetic::div_mod::lemma_fundamental_div_mod(n, down);
    let t = n / down;
    let r = n % down;
    assert((t < rest) == (n < rest * down) && (n >= 0 ==> t >= 0) && (n < 0 ==> t < 0)
        && (n == 0 ==> t == 0) && t * down <= n < (t + 1) * down) by (nonlinear_arith)
        requires
            n == down * t + r,
            0 <= r < down,
    ;
}

/// A tyre that slides within its grip resists in proportion to the sliding, along
/// each axis, to a nanonewton.
pub proof fn grip_follows_the_slide(gear: LandingGearConfig, slide: Vec3, load: int)
    requires
        gear.gear_grip >= 0,
        strength_sq(grip_of(gear, slide)) <= load * load,
    ensures
        ({
            let f = limited(grip_of(gear, slide), load);
            let g = gear.gear_grip as int;
            &&& -ONE < f.0 * ONE + g * slide.x < ONE
            &&& -ONE < f.1 * ONE + g * slide.y < ONE
            &&& -ONE < f.2 * ONE + g * slide.z < ONE
        }),
{
    let g = gear.gear_grip as int;
    let (x, y, z) = (slide.x as int, slide.y as int, slide.z as int);
    assert(g * (-x) == -(g * x) && g * (-y) == -(g * y) && g * (-z) == -(g * z))
        by (nonlinear_arith);
}

/// A tyre that slides harder than it can grip skids: along each axis it keeps the share
/// of its grip that the load is of the whole grip's strength.
pub proof fn skids_use_the_whole_load(f: (int, int, int), limit: int, strength: int)
    requires
        limit >= 0,
        strength > 0,
        strength_sq(f) > limit * limit,
        (strength - 1) * (strength - 1) < strength_sq(f) <= strength * strength,
    ensures
        ({
            let g = limited(f, limit);
            &&& -strength < g.0 * strength - f.0 * limit < strength
            &&& -strength < g.1 * strength - f.1 * limit < strength
            &&& -strength < g.2 * strength - f.2 * limit < strength
        }),
{
    let sq = strength_sq(f);
    root_exists(sq);
    if strength * strength == sq {
        assert(sq < (strength + 1) * (strength + 1)) by (nonlinear_arith)
            requires
                strength * strength == sq,
                strength > 0,
        ;
        root_is_unique(root(sq), strength, sq);
    } else {
        root_is_unique(root(sq), strength - 1, sq);
    }
    assert(root_above(sq) == strength);
    lemma_reduced_share(f.0, limit, strength);
    lemma_reduced_share(f.1, limit, strength);
    lemma_reduced_share(f.2, limit, strength);
}

proof fn lemma_reduced_share(c: int, limit: int, l: int)
    requires
        limit >= 0,
        l > 0,
    ensures
        -l < super::landing_gear::reduced(c, limit, l) * l - c * limit < l,
{
    let m = if c >= 0 {
        c
    } else {
        -c
    };
    let p = m * limit;
    vstd::arithmetic::div_mod::lemma_fundamental_div_mod(p, l);
    let q = p / l;
    let r = p % l;
    assert(l * q == q * l && (-q) * l == -(q * l) && (-c) * limit == -(c * limit))
        by (nonlinear_arith);
}

/// Rolling resistance is the coefficient's share of the load against the rolling: it
/// grows in proportion to each of the three.
pub proof fn rolling_resists_in_proportion(crr: int, load: int, rolling: int)
    requires
        -ONE <= rolling <= ONE,
    ensures
        ({
            let whole = rolling_drag(crr, load, ONE as int);
            let part = rolling_drag(crr, load, rolling);
            &&& -ONE < whole * ONE + crr * load < ONE
            &&& -ONE < part * ONE - whole * rolling < ONE
        }),
{
    let s = crate::fixed::scaled(crr, load);
    assert(s * ONE == s * 1_000_000_000);
    assert(s * (-rolling) == -(s * rolling) && (-s) * rolling == -(s * rolling))
        by (nonlinear_arith);
}

/// A wheel's velocity is put together again from what it is split into: the sinking along
/// the strut, the rolling along the heading, and the slide.
pub proof fn wheel_motion_adds_up(m: WheelMotion, axes: Axes, v: Triple)
    requires
        splits(m, axes, v),
    ensures
        plus(
            plus(
                stretched(axes.y.parts(), -m.sink),
                stretched(m.heading.parts(), m.rolling as int),
            ),
            m.slide.parts(),
        ) == v,
        ({
            let up = axes.y.parts();
            &&& -m.sink * ONE <= dot(up, v) < (1 - m.sink) * ONE
            &&& m.rolling * ONE <= dot(m.heading.parts(), levelled(axes, v)) < (m.rolling + 1) * ONE
            &&& plus(levelled(axes, v), stretched(up, -m.sink)) == v
        }),
{
}

/// What a wheel does to the aircraft is the strut's load along the body's up, and on top
/// of it the tyre's grip and its drag along the heading: letting the slide or the rolling
/// go takes away just these.
pub proof fn wheels_push_grip_and_drag(
    gear: LandingGearConfig,
    axes: Axes,
    contact: StrutContact,
    m: WheelMotion,
    straight: WheelMotion,
    smooth: int,
    braking: bool,
)
    requires
        gear.sound(),
        straight == (WheelMotion { slide: Vec3 { x: 0, y: 0, z: 0 }, ..m }),
    ensures
        ({
            let load = load_of(gear, contact.compression as int, m.sink as int);
            let whole = answer(gear, axes, contact, m, smooth, braking);
            let rolling = answer(gear, axes, contact, straight, smooth, braking);
            let parked = answer(gear, axes, contact, straight, 0, braking);
            let crr = gear.gear_rolling_resistance + if braking {
                gear.gear_brake_strength as int
            } else {
                0
            };
            &&& minus(whole, rolling) == limited(grip_of(gear, m.slide), load)
            &&& minus(rolling, parked) == stretched(
                m.heading.parts(),
                rolling_drag(crr, load, smooth),
            )
            &&& parked == stretched(axes.y.parts(), load)
        }),
{
    super::wheels::parked_wheel_is_pushed_along_the_strut(gear, axes, contact, straight, braking);
    let load = load_of(gear, contact.compression as int, m.sink as int);
    let g = gear.gear_grip as int;
    assert(g * 0 == 0);
    assert(grip_of(gear, straight.slide) == (0int, 0int, 0int));
    assert(0 * 0 == 0);
    assert(load * load >= 0) by (nonlinear_arith);
    let h = m.heading.parts();
    let crr = gear.gear_rolling_resistance + if braking {
        gear.gear_brake_strength as int
    } else {
        0
    };
    let s = crate::fixed::scaled(crr, load);
    assert(s * 0 == 0);
    assert(rolling_drag(crr, load, 0) == 0);
    assert(h.0 * 0 == 0 && h.1 * 0 == 0 && h.2 * 0 == 0) by (nonlinear_arith);
}

/// A point of the body stands from the body's origin by its parts along the body's axes;
/// moving the body moves it along.
pub proof fn points_move_with_the_body(origin: Triple, moved: Triple, axes: Axes, point: Triple)
    ensures
        ({
            let at = placed_point(origin, axes, point);
            let d = minus(at, origin);
            let (x, y, z) = (axes.x, axes.y, axes.z);
            &&& minus(placed_point(plus(origin, moved), axes, point), at) == moved
            &&& d.0 * ONE <= x.x * point.0 + y.x * point.1 + z.x * point.2 < (d.0 + 1) * ONE
            &&& d.1 * ONE <= x.y * point.0 + y.y * point.1 + z.y * point.2 < (d.1 + 1) * ONE
            &&& d.2 * ONE <= x.z * point.0 + y.z * point.1 + z.z * point.2 < (d.2 + 1) * ONE
        }),
{
}

}
