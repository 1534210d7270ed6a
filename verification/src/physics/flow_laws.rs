//! A surface takes from the air and never gives: its drag coefficient is not
//! negative, and its force never points against the flow.

use super::aero_model::{
    along, attached_angle, attached_lift, corrected_slope, friction_at_90, induced_angle,
    is_aspect, is_attached, is_blend, is_coefficients, is_flow, is_force, is_polar, is_stalled,
    is_turn, over, polars_stay_in_range, pressure_force, slope_divisor, Coefficients, Flow, Polar,
    SurfaceForce, Turn, QUARTER_TURN,
};
use super::aero_surface::{AeroSurface, MAX_DEFLECTION};
use super::aero_surface_config::AeroSurfaceConfig;
use crate::fixed::{blend_stays_between, root, root_exists, scaled, ONE};
use crate::terrain::runway::HALF_TURN;
use crate::vector::product_within;
use vstd::prelude::*;

verus! {

/// The sign of a rounded product is that of its factors.
proof fn lemma_sign(a: int, b: int)
    ensures
        a >= 0 && b >= 0 ==> scaled(a, b) >= 0,
        a <= 0 && b <= 0 ==> scaled(a, b) >= 0,
        a <= 0 && b >= 0 ==> scaled(a, b) <= 0,
        a >= 0 && b <= 0 ==> scaled(a, b) <= 0,
{
    assert(a >= 0 && b >= 0 ==> a * b >= 0) by (nonlinear_arith);
    assert(a <= 0 && b <= 0 ==> a * b >= 0) by (nonlinear_arith);
    assert(a <= 0 && b >= 0 ==> a * b <= 0) by (nonlinear_arith);
    assert(a >= 0 && b <= 0 ==> a * b <= 0) by (nonlinear_arith);
}

proof fn lemma_stalled_drag(
    c: Coefficients,
    angle: int,
    skin: int,
    flap_angle: int,
    edge: int,
    t: Turn,
)
    requires
        is_stalled(c, angle, skin, flap_angle, edge, t),
        0 <= skin,
        -MAX_DEFLECTION <= flap_angle <= MAX_DEFLECTION,
        0 <= edge <= ONE,
        is_turn(t),
    ensures
        c.drag >= 0,
{
    let sine = if t.sin < 0 {
        -t.sin
    } else {
        t.sin as int
    };
    let base = 560_000_000 + scaled(440_000_000, sine);
    let bluff = 1_000_000_000_000_000_000int / base;
    let rest = 1_000_000_000_000_000_000int % base;
    vstd::arithmetic::div_mod::lemma_fundamental_div_mod(1_000_000_000_000_000_000, base);
    assert(bluff >= 1_000_000_000) by (nonlinear_arith)
        requires
            1_000_000_000_000_000_000 == base * bluff + rest,
            0 <= rest < base,
            560_000_000 <= base <= 1_000_000_000,
    ;
    product_within(flap_angle, flap_angle, 872_664_626, 872_664_626);
    let front = friction_at_90(flap_angle);
    assert(front > 0);
    let shape = bluff - scaled(410_000_000, ONE - edge);
    let push = scaled(front, t.sin as int);
    let normal = scaled(push, shape);
    lemma_sign(front, t.sin as int);
    lemma_sign(push, shape);
    lemma_sign(normal, t.sin as int);
    lemma_sign(skin, t.cos as int);
    let tangential = scaled(skin, t.cos as int) / 2;
    lemma_sign(tangential, t.cos as int);
}

/// Lift and the sine of the angle that counts are to the same side of the surface,
/// and the flow comes from ahead.
pub open spec fn from_ahead(lift: int, t: Turn) -> bool {
    &&& t.cos > 0
    &&& lift > 0 ==> t.sin >= 0
    &&& lift < 0 ==> t.sin <= 0
}

proof fn lemma_attached_drag(c: Coefficients, lift: int, angle: int, skin: int, t: Turn)
    requires
        is_attached(c, lift, angle, skin, t),
        0 <= skin,
        from_ahead(lift, t),
    ensures
        c.drag >= 0,
{
    let tangential = scaled(skin, t.cos as int);
    lemma_sign(skin, t.cos as int);
    lemma_sign(t.sin as int, tangential);
    lemma_sign(tangential, t.cos as int);
    let n = (lift + scaled(t.sin as int, tangential)) * ONE;
    let normal = over(n, t.cos as int);
    let (d, r) = (t.cos as int, n % (t.cos as int));
    vstd::arithmetic::div_mod::lemma_fundamental_div_mod(n, d);
    assert((n >= 0 ==> normal >= 0) && (n <= 0 ==> normal <= 0)) by (nonlinear_arith)
        requires
            n == d * normal + r,
            0 <= r < d,
    ;
    lemma_sign(normal, t.sin as int);
    if t.sin == 0 {
        assert(normal * 0 == 0);
    }
}

/// No flow pulls a surface along: where attached flow comes from ahead, with the
/// lift to the side that the angle is on, and the stall is on its way from one end to
/// the other, the drag coefficient is not negative. Separated flow drags from
/// whatever side it comes.
pub proof fn drag_is_never_negative(
    c: Coefficients,
    f: Flow,
    s: AeroSurface,
    edge: int,
    turn: Turn,
    past: Turn,
)
    requires
        is_coefficients(c, f, s, edge, turn, past),
        s.sound(),
        0 <= edge <= ONE,
        is_turn(turn),
        is_turn(past),
        match f {
            Flow::Attached { lift, .. } => from_ahead(lift as int, turn),
            Flow::Stalled { .. } => true,
            Flow::Leaving { lift, share, .. } => from_ahead(lift as int, turn) && 0 <= share
                <= ONE,
        },
    ensures
        c.drag >= 0,
{
    let skin = s.config.skin_friction as int;
    let flap = s.flap_angle as int;
    match f {
        Flow::Attached { lift, angle } => {
            lemma_attached_drag(c, lift as int, angle as int, skin, turn);
        },
        Flow::Stalled { angle } => {
            lemma_stalled_drag(c, angle as int, skin, flap, edge, turn);
        },
        Flow::Leaving { lift, angle, stalled_angle, share } => {
            let (a, b) = choose|a: Coefficients, b: Coefficients|
                {
                    &&& #[trigger] is_attached(a, lift as int, angle as int, skin, turn)
                    &&& #[trigger] is_stalled(b, stalled_angle as int, skin, flap, edge, past)
                    &&& is_blend(c, a, b, share as int)
                };
            lemma_attached_drag(a, lift as int, angle as int, skin, turn);
            lemma_stalled_drag(b, stalled_angle as int, skin, flap, edge, past);
            blend_stays_between(a.drag as int, b.drag as int, share as int);
        },
    }
}

/// The vortices never turn the flow past the surface: the angle that counts is to
/// the side that the lift is on, and no further from the angle of no lift than the flow
/// itself is. Less than a ten-millionth of a radian below that angle both are as small
/// as what rounding makes of them.
pub proof fn lift_and_angle_agree(p: Polar, slope: int, aspect: int, aoa: int)
    requires
        p.slope == corrected_slope(slope, aspect),
        0 <= slope <= 10_000_000_000,
        is_aspect(aspect),
    ensures
        aoa >= p.zero_lift ==> attached_lift(p, aoa) >= 0 && 0 <= attached_angle(
            p,
            aspect,
            aoa,
        ) <= aoa - p.zero_lift,
        aoa <= p.zero_lift - 100 ==> attached_lift(p, aoa) <= 0 && aoa - p.zero_lift
            <= attached_angle(p, aspect, aoa) <= 0,
        p.zero_lift - 100 < aoa < p.zero_lift ==> -1000 <= attached_lift(p, aoa) <= 0 && -100
            < attached_angle(p, aspect, aoa) <= 3200,
{
    let x = aoa - p.zero_lift;
    let lift = attached_lift(p, aoa);
    lemma_sign(p.slope as int, x);
    // The slope is at most a quarter of the endless wing's for each unit of aspect.
    let d = slope_divisor(aspect);
    let n = 2 * (aspect + 4 * ONE) * ONE;
    let e = aspect + 2 * ONE;
    vstd::arithmetic::div_mod::lemma_fundamental_div_mod(n, e);
    let (q, r) = (n / e, n % e);
    assert(aspect + q >= 3_999_999_999) by (nonlinear_arith)
        requires
            n == e * q + r,
            0 <= r < e,
            e == aspect + 2_000_000_000,
            n == 2_000_000_000 * e + 4_000_000_000_000_000_000,
            100_000_000 <= aspect,
    ;
    let k = slope * aspect;
    vstd::arithmetic::div_mod::lemma_fundamental_div_mod(k, d);
    let (w, y) = (k / d, k % d);
    assert(0 <= w && w * 3_999_999_999 <= 10_000_000_000 * aspect) by (nonlinear_arith)
        requires
            k == d * w + y,
            0 <= y < d,
            k == slope * aspect,
            0 <= slope <= 10_000_000_000,
            0 <= aspect,
            d >= 3_999_999_999,
    ;
    // What the vortices take.
    let h = scaled(HALF_TURN as int, aspect);
    let turned = induced_angle(lift, aspect);
    let m = lift * ONE;
    vstd::arithmetic::div_mod::lemma_fundamental_div_mod(m, h);
    let s = m % h;
    let z = w * x - ONE * lift;
    assert(0 <= z < ONE);
    assert(m == w * x - z);
    assert(314_000_000 <= h && 10 * h >= 31 * aspect);
    assert(100 * w <= 81 * h) by (nonlinear_arith)
        requires
            0 <= w,
            w * 3_999_999_999 <= 10_000_000_000 * aspect,
            10 * h >= 31 * aspect,
            0 <= aspect,
    ;
    assert((m >= 0 ==> turned >= 0) && (m <= 0 ==> turned <= 0)) by (nonlinear_arith)
        requires
            m == h * turned + s,
            0 <= s < h,
    ;
    if x >= 0 {
        assert(turned <= x) by (nonlinear_arith)
            requires
                w * x - z == h * turned + s,
                0 <= s < h,
                0 <= z,
                0 <= x,
                0 <= w,
                100 * w <= 81 * h,
                314_000_000 <= h,
        ;
    } else if x <= -100 {
        assert(turned >= x) by (nonlinear_arith)
            requires
                w * x - z == h * turned + s,
                0 <= s < h,
                0 <= z < 1_000_000_000,
                x <= -100,
                0 <= w,
                100 * w <= 81 * h,
                314_000_000 <= h,
        ;
    } else {
        assert(w <= 10_000_000_000) by (nonlinear_arith)
            requires
                k == d * w + y,
                0 <= y,
                k == slope * aspect,
                0 <= slope <= 10_000_000_000,
                0 <= aspect <= d,
                0 < d,
                0 <= w,
        ;
        assert(-990_000_000_000 <= w * x <= 0) by (nonlinear_arith)
            requires
                0 <= w <= 10_000_000_000,
                -99 <= x <= 0,
        ;
        assert(turned >= -3200) by (nonlinear_arith)
            requires
                m == h * turned + s,
                0 <= s < h,
                m >= -1_000_000_000_000,
                314_000_000 <= h,
        ;
    }
}

/// What a sine and a cosine say of an angle: their signs, and that the sine of a small
/// angle is no larger than the angle, but for the last decimal.
pub open spec fn is_turn_of(t: Turn, angle: int) -> bool {
    let size = if angle < 0 {
        -angle
    } else {
        angle
    };
    &&& 0 <= angle <= HALF_TURN ==> t.sin >= 0
    &&& -HALF_TURN <= angle <= 0 ==> t.sin <= 0
    &&& -QUARTER_TURN < angle < QUARTER_TURN ==> t.cos > 0
    &&& size <= 1_000_000 ==> t.cos >= 500_000_000 && -(size + 1) <= t.sin <= size + 1
}

/// Attached flow is never square to a surface that the model covers, however its flap
/// is deflected: the angle that counts is at least 15 thousandths of a radian short of
/// a quarter turn, so that its cosine is well above a thousandth.
pub proof fn attached_flow_is_clear_of_square(
    s: AeroSurface,
    effectiveness: int,
    aspect: int,
    p: Polar,
    aoa: int,
    f: Flow,
)
    requires
        s.sound(),
        0 <= effectiveness <= ONE,
        is_aspect(aspect),
        is_polar(p, s, effectiveness, aspect),
        is_flow(f, p, aspect, aoa),
    ensures
        ({
            let most = QUARTER_TURN - 15_000_000;
            match f {
                Flow::Attached { angle, .. } => -most <= angle <= most,
                Flow::Stalled { .. } => true,
                Flow::Leaving { angle, .. } => -most <= angle <= most,
            }
        }),
{
    polars_stay_in_range(p, s, effectiveness, aspect);
    let slope = s.config.lift_slope as int;
    lift_and_angle_agree(p, slope, aspect, aoa);
    lift_and_angle_agree(p, slope, aspect, p.stall_high as int);
    lift_and_angle_agree(p, slope, aspect, p.stall_low as int);
}

/// Drag of attached flow as near the angle of no lift as rounding goes.
proof fn lemma_drag_at_no_lift(c: Coefficients, lift: int, angle: int, skin: int, t: Turn)
    requires
        is_attached(c, lift, angle, skin, t),
        -1000 <= lift <= 0,
        0 <= skin <= ONE,
        -3201 <= t.sin <= 3201,
        500_000_000 <= t.cos <= ONE,
    ensures
        c.drag >= -1,
        skin >= 8 ==> c.drag >= 0,
{
    let (sin, cos) = (t.sin as int, t.cos as int);
    let tangential = scaled(skin, cos);
    product_within(skin, cos, 1_000_000_000, 1_000_000_000);
    assert(0 <= skin * cos && (skin >= 8 ==> skin * cos >= 4_000_000_000)) by (nonlinear_arith)
        requires
            0 <= skin,
            500_000_000 <= cos,
    ;
    assert(0 <= tangential * cos && (tangential >= 4 ==> tangential * cos >= 2_000_000_000))
        by (nonlinear_arith)
        requires
            0 <= tangential,
            500_000_000 <= cos,
    ;
    product_within(sin, tangential, 3201, 1_000_000_000);
    let n = (lift + scaled(sin, tangential)) * ONE;
    let normal = over(n, cos);
    let r = n % cos;
    vstd::arithmetic::div_mod::lemma_fundamental_div_mod(n, cos);
    assert(-8_500 <= normal <= 8_500) by (nonlinear_arith)
        requires
            n == cos * normal + r,
            0 <= r < cos,
            500_000_000 <= cos,
            -4_201_000_000_000 <= n <= 3_201_000_000_000,
    ;
    product_within(normal, sin, 8_500, 3201);
}

/// Drag of attached flow at an angle of attack up to the stall.
proof fn lemma_drag_before_the_stall(
    c: Coefficients,
    p: Polar,
    slope: int,
    aspect: int,
    aoa: int,
    skin: int,
    t: Turn,
)
    requires
        p.slope == corrected_slope(slope, aspect),
        0 <= slope <= 10_000_000_000,
        is_aspect(aspect),
        -QUARTER_TURN < aoa - p.zero_lift < QUARTER_TURN,
        0 <= skin <= ONE,
        is_turn(t),
        is_turn_of(t, attached_angle(p, aspect, aoa)),
        is_attached(c, attached_lift(p, aoa), attached_angle(p, aspect, aoa), skin, t),
    ensures
        c.drag >= -1,
        skin >= 8 ==> c.drag >= 0,
{
    lift_and_angle_agree(p, slope, aspect, aoa);
    let (lift, angle) = (attached_lift(p, aoa), attached_angle(p, aspect, aoa));
    if p.zero_lift - 100 < aoa < p.zero_lift {
        lemma_drag_at_no_lift(c, lift, angle, skin, t);
    } else {
        lemma_attached_drag(c, lift, angle, skin, t);
    }
}

/// Drag acts downstream at every angle of attack: for the sines and cosines of its
/// angles, the drag coefficient of a surface that the model covers is never below minus
/// the last decimal, and not negative where the skin has any friction worth the name.
/// Left out is the upper stall angle itself, where the stall begins from the lower
/// side.
pub proof fn drag_acts_downstream(
    s: AeroSurface,
    effectiveness: int,
    aspect: int,
    p: Polar,
    aoa: int,
    f: Flow,
    edge: int,
    turn: Turn,
    past: Turn,
    c: Coefficients,
)
    requires
        s.sound(),
        0 <= effectiveness <= ONE,
        is_aspect(aspect),
        is_polar(p, s, effectiveness, aspect),
        is_flow(f, p, aspect, aoa),
        aoa != p.stall_high,
        0 <= edge <= ONE,
        is_turn(turn),
        is_turn(past),
        match f {
            Flow::Attached { angle, .. } => is_turn_of(turn, angle as int),
            Flow::Stalled { .. } => true,
            Flow::Leaving { angle, .. } => is_turn_of(turn, angle as int),
        },
        is_coefficients(c, f, s, edge, turn, past),
    ensures
        c.drag >= -1,
        s.config.skin_friction >= 8 ==> c.drag >= 0,
{
    polars_stay_in_range(p, s, effectiveness, aspect);
    let slope = s.config.lift_slope as int;
    let skin = s.config.skin_friction as int;
    let flap = s.flap_angle as int;
    match f {
        Flow::Attached { lift, angle } => {
            lemma_drag_before_the_stall(c, p, slope, aspect, aoa, skin, turn);
        },
        Flow::Stalled { angle } => {
            lemma_stalled_drag(c, angle as int, skin, flap, edge, turn);
        },
        Flow::Leaving { lift, angle, stalled_angle, share } => {
            let (a, b) = choose|a: Coefficients, b: Coefficients|
                {
                    &&& #[trigger] is_attached(a, lift as int, angle as int, skin, turn)
                    &&& #[trigger] is_stalled(b, stalled_angle as int, skin, flap, edge, past)
                    &&& is_blend(c, a, b, share as int)
                };
            if aoa > p.stall_high {
                let from = p.stall_high as int;
                lemma_drag_before_the_stall(a, p, slope, aspect, from, skin, turn);
                lemma_share(aoa - p.stall_high, p.padded_high - p.stall_high);
            } else {
                let from = p.stall_low as int;
                lemma_drag_before_the_stall(a, p, slope, aspect, from, skin, turn);
                lemma_share(p.stall_low - aoa, p.stall_low - p.padded_low);
            }
            lemma_stalled_drag(b, stalled_angle as int, skin, flap, edge, past);
            blend_stays_between(a.drag as int, b.drag as int, share as int);
        },
    }
}

proof fn lemma_share(n: int, d: int)
    requires
        0 <= n <= d,
        0 < d,
    ensures
        0 <= (n * ONE) / d <= ONE,
{
    let m = n * ONE;
    vstd::arithmetic::div_mod::lemma_fundamental_div_mod(m, d);
    let (q, r) = (m / d, m % d);
    assert(0 <= q <= 1_000_000_000) by (nonlinear_arith)
        requires
            m == d * q + r,
            0 <= r < d,
            0 <= m <= 1_000_000_000 * d,
    ;
}

/// The force of a surface never points against the flow, by more than the last
/// decimals: along the direction in which the air moves it is not negative where the
/// drag coefficient is not.
pub proof fn force_never_points_against_the_flow(
    f: SurfaceForce,
    c: Coefficients,
    density: int,
    vx: int,
    vy: int,
    config: AeroSurfaceConfig,
)
    requires
        is_force(f, c, density, vx, vy, config),
        c.drag >= 0,
        0 <= density,
        0 <= config.chord,
        0 <= config.span,
    ensures
        ({
            let speed = root(vx * vx + vy * vy);
            speed > 0 ==> scaled(f.x as int, along(vx, speed)) + scaled(
                f.y as int,
                along(vy, speed),
            ) >= -8
        }),
{
    let n = vx * vx + vy * vy;
    assert(vx * vx >= 0 && vy * vy >= 0) by (nonlinear_arith);
    root_exists(n);
    let speed = root(n);
    if speed > 0 {
        let area = scaled(config.chord as int, config.span as int);
        lemma_sign(config.chord as int, config.span as int);
        let p = density * n;
        assert(p >= 0) by (nonlinear_arith)
            requires
                p == density * n,
                0 <= density,
                0 <= n,
        ;
        let qa = pressure_force(density, vx, vy, area);
        lemma_sign(p / 2_000_000_000_000_000_000, area);
        let (drag, lift) = (scaled(c.drag as int, qa), scaled(c.lift as int, qa));
        lemma_sign(c.drag as int, qa);
        let (x, y) = (along(vx, speed), along(vy, speed));
        lemma_direction(vx, speed, n);
        lemma_direction(vy, speed, n);
        let (a, b) = (drag * x - ONE * scaled(drag, x), lift * y - ONE * scaled(lift, y));
        let (d, e) = (drag * y - ONE * scaled(drag, y), lift * x - ONE * scaled(lift, x));
        assert(0 <= a < ONE && 0 <= b < ONE && 0 <= d < ONE && 0 <= e < ONE);
        let (g, h) = (f.x as int, f.y as int);
        let (i, j, k, l) = (drag * x, lift * y, drag * y, lift * x);
        assert(1_000_000_000 * (g * x) == i * x + j * x - (a + b) * x) by (nonlinear_arith)
            requires
                1_000_000_000 * g == i - a + (j - b),
        ;
        assert(1_000_000_000 * (h * y) == k * y - l * y - (d - e) * y) by (nonlinear_arith)
            requires
                1_000_000_000 * h == k - d - (l - e),
        ;
        assert(j * x == l * y) by (nonlinear_arith)
            requires
                j == lift * y,
                l == lift * x,
        ;
        assert(i * x >= 0) by (nonlinear_arith)
            requires
                i == drag * x,
                drag >= 0,
        ;
        assert(k * y >= 0) by (nonlinear_arith)
            requires
                k == drag * y,
                drag >= 0,
        ;
        product_within(a + b, x, 2 * ONE, 2 * ONE);
        product_within(d - e, y, ONE as int, 2 * ONE);
    }
}

/// A surface takes no energy out of still air: whatever its deflection and wherever the
/// air comes from, its force along the direction in which the air moves is not
/// negative, but for the last decimals. Left out is the upper stall angle itself.
pub proof fn surfaces_take_no_energy_out_of_the_air(
    s: AeroSurface,
    effectiveness: int,
    aspect: int,
    p: Polar,
    aoa: int,
    f: Flow,
    edge: int,
    turn: Turn,
    past: Turn,
    c: Coefficients,
    density: int,
    vx: int,
    vy: int,
    force: SurfaceForce,
)
    requires
        s.sound(),
        s.config.skin_friction >= 8,
        0 <= effectiveness <= ONE,
        is_aspect(aspect),
        is_polar(p, s, effectiveness, aspect),
        is_flow(f, p, aspect, aoa),
        aoa != p.stall_high,
        0 <= edge <= ONE,
        is_turn(turn),
        is_turn(past),
        match f {
            Flow::Attached { angle, .. } => is_turn_of(turn, angle as int),
            Flow::Stalled { .. } => true,
            Flow::Leaving { angle, .. } => is_turn_of(turn, angle as int),
        },
        is_coefficients(c, f, s, edge, turn, past),
        0 <= density,
        is_force(force, c, density, vx, vy, s.config),
    ensures
        ({
            let speed = root(vx * vx + vy * vy);
            if speed == 0 {
                force == (SurfaceForce { x: 0, y: 0, moment: 0 })
            } else {
                scaled(force.x as int, along(vx, speed)) + scaled(
                    force.y as int,
                    along(vy, speed),
                ) >= -8
            }
        }),
{
    drag_acts_downstream(s, effectiveness, aspect, p, aoa, f, edge, turn, past, c);
    force_never_points_against_the_flow(force, c, density, vx, vy, s.config);
    assert(vx * vx >= 0 && vy * vy >= 0) by (nonlinear_arith);
    root_exists(vx * vx + vy * vy);
}

proof fn lemma_direction(v: int, speed: int, n: int)
    requires
        0 < speed,
        v * v <= n,
        n < (speed + 1) * (speed + 1),
    ensures
        -(2 * ONE) <= along(v, speed) <= 2 * ONE,
{
    assert(-speed <= v <= speed) by (nonlinear_arith)
        requires
            v * v < (speed + 1) * (speed + 1),
            0 < speed,
    ;
    let m = v * ONE;
    vstd::arithmetic::div_mod::lemma_fundamental_div_mod(m, speed);
    let (q, r) = (m / speed, m % speed);
    assert(-2_000_000_000 <= q <= 2_000_000_000) by (nonlinear_arith)
        requires
            m == speed * q + r,
            0 <= r < speed,
            -(speed * 1_000_000_000) <= m <= speed * 1_000_000_000,
    ;
}

}
