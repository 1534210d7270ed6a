//! Which way separated and attached flow push a surface, and how hard: laws over the
//! coefficients of one flow, or of two.

use super::aero_model::{
    friction_at_90, is_attached, is_blend, is_stalled, is_turn, moment_arm, over, Coefficients,
    Turn,
};
use super::aero_surface::MAX_DEFLECTION;
use crate::fixed::{scaled, ONE};
use crate::terrain::runway::HALF_TURN;
use vstd::prelude::*;

verus! {

/// What a flow pushes square to the chord: lift and drag turned by the angle. It has
/// eighteen decimals.
pub open spec fn pushes_across(c: Coefficients, t: Turn) -> int {
    c.lift * t.cos + c.drag * t.sin
}

/// What it drags along the chord, with eighteen decimals.
pub open spec fn drags_along(c: Coefficients, t: Turn) -> int {
    c.drag * t.cos - c.lift * t.sin
}

/// Sine and cosine of one angle, to the last decimals.
pub open spec fn is_unit(t: Turn) -> bool {
    &&& is_turn(t)
    &&& -4 * ONE <= t.sin * t.sin + t.cos * t.cos - ONE * ONE <= 4 * ONE
}

/// A surface whose flap is within its stops, in flow with a share of its edge effect.
pub open spec fn is_setting(skin: int, flap_angle: int, edge: int) -> bool {
    &&& 0 <= skin <= ONE
    &&& -MAX_DEFLECTION <= flap_angle <= MAX_DEFLECTION
    &&& 0 <= edge <= ONE
}

spec fn normal_of(flap_angle: int, edge: int, t: Turn) -> int {
    let sine = if t.sin < 0 {
        -t.sin
    } else {
        t.sin as int
    };
    scaled(
        scaled(friction_at_90(flap_angle), t.sin as int),
        1_000_000_000_000_000_000int / (560_000_000 + scaled(440_000_000, sine)) - scaled(
            410_000_000,
            ONE - edge,
        ),
    )
}

proof fn lemma_product(a: int, b: int, x: int, y: int)
    requires
        -x <= a <= x,
        -y <= b <= y,
    ensures
        -(x * y) <= a * b <= x * y,
{
    assert(-(x * y) <= a * b <= x * y) by (nonlinear_arith)
        requires
            -x <= a <= x,
            -y <= b <= y,
    ;
}

/// A surface square to the flow, flap and all, drags 1.7 to 2.2.
proof fn lemma_friction(flap_angle: int)
    requires
        -MAX_DEFLECTION <= flap_angle <= MAX_DEFLECTION,
    ensures
        1_760_000_000 <= friction_at_90(flap_angle) <= 2_170_000_000,
{
    let f = flap_angle;
    assert(0 <= f * f <= 872_664_626 * 872_664_626) by (nonlinear_arith)
        requires
            -872_664_626 <= f <= 872_664_626,
    ;
}

proof fn lemma_bluff(base: int)
    requires
        560_000_000 <= base <= ONE,
    ensures
        ({
            let bluff = 1_000_000_000_000_000_000int / base;
            &&& ONE <= bluff <= 1_785_714_286
            &&& bluff * base <= 1_000_000_000_000_000_000 < (bluff + 1) * base
        }),
{
    let n = 1_000_000_000_000_000_000int;
    vstd::arithmetic::div_mod::lemma_fundamental_div_mod(n, base);
    let q = n / base;
    let r = n % base;
    assert(1_000_000_000 <= q <= 1_785_714_286 && q * base <= n < (q + 1) * base)
        by (nonlinear_arith)
        requires
            n == base * q + r,
            0 <= r < base,
            560_000_000 <= base <= 1_000_000_000,
            n == 1_000_000_000_000_000_000,
    ;
}

/// What the normal force is made of, and its size.
proof fn lemma_normal(flap_angle: int, edge: int, t: Turn)
    requires
        is_setting(0, flap_angle, edge),
        is_turn(t),
    ensures
        ({
            let n = normal_of(flap_angle, edge, t);
            &&& -4_000_000_000 <= n <= 4_000_000_000
            &&& t.sin >= 0 ==> n >= t.sin - 4
            &&& t.sin <= 0 ==> n <= t.sin + 4
        }),
{
    let cd = friction_at_90(flap_angle);
    lemma_friction(flap_angle);
    let s = t.sin as int;
    let sine = if s < 0 {
        -s
    } else {
        s
    };
    let base = 560_000_000 + scaled(440_000_000, sine);
    assert(560_000_000 <= base <= ONE);
    lemma_bluff(base);
    let shape = 1_000_000_000_000_000_000int / base - scaled(410_000_000, ONE - edge);
    assert(590_000_000 <= shape <= 1_785_714_286);
    let push = scaled(cd, s);
    lemma_product(cd, s, 2_170_000_000, 1_000_000_000);
    assert(-2_170_000_000 <= push <= 2_170_000_000);
    lemma_product(push, shape, 2_170_000_000, 1_785_714_286);
    assert(s >= 0 ==> cd * s >= 1_760_000_000 * s) by (nonlinear_arith)
        requires
            cd >= 1_760_000_000,
    ;
    assert(s <= 0 ==> cd * s <= 1_760_000_000 * s) by (nonlinear_arith)
        requires
            cd >= 1_760_000_000,
    ;
    assert(push >= 0 ==> push * shape >= 590_000_000 * push) by (nonlinear_arith)
        requires
            shape >= 590_000_000,
    ;
    assert(push <= 0 ==> push * shape <= 590_000_000 * push) by (nonlinear_arith)
        requires
            shape >= 590_000_000,
    ;
}

/// Turned back by the angle, lift and drag are a force across the chord and half the
/// skin's friction along it; and the moment is that of the force across, at its arm
/// behind the leading edge, nose down. Up to the last decimals.
pub proof fn separated_flow_pushes_across_the_chord(
    c: Coefficients,
    angle: int,
    skin: int,
    flap_angle: int,
    edge: int,
    t: Turn,
)
    requires
        is_stalled(c, angle, skin, flap_angle, edge, t),
        is_setting(skin, flap_angle, edge),
        is_unit(t),
    ensures
        -50 * ONE <= 2 * drags_along(c, t) - skin * t.cos <= 50 * ONE,
        ({
            let arm = moment_arm(angle);
            let size = if arm < 0 {
                -arm
            } else {
                arm
            };
            let slack = 50 * ONE * size + ONE * ONE;
            -slack <= c.moment * ONE * ONE + pushes_across(c, t) * arm <= slack
        }),
{
    let n = normal_of(flap_angle, edge, t);
    let k = scaled(skin, t.cos as int) / 2;
    lemma_normal(flap_angle, edge, t);
    lemma_product(skin, t.cos as int, 1_000_000_000, 1_000_000_000);
    lemma_turned_back(c.lift as int, c.drag as int, n, k, t);
    let x = pushes_across(c, t);
    let arm = moment_arm(angle);
    let size = if arm < 0 {
        -arm
    } else {
        arm
    };
    let off = x - n * ONE;
    lemma_product(off, arm, 50 * ONE, size);
    assert(x * arm == n * arm * 1_000_000_000 + off * arm) by (nonlinear_arith)
        requires
            x == n * 1_000_000_000 + off,
    ;
}

proof fn lemma_back(n: int, k: int, a: int, b: int, s: int, c: int)
    ensures
        (n * c - k * s + a) * c + (n * s + k * c + b) * s == n * (s * s + c * c) + a * c + b * s,
        (n * s + k * c + b) * c - (n * c - k * s + a) * s == k * (s * s + c * c) + b * c - a * s,
{
    assert((n * c - k * s + a) * c == n * (c * c) - k * (s * c) + a * c) by (nonlinear_arith);
    assert((n * s + k * c + b) * s == n * (s * s) + k * (s * c) + b * s) by (nonlinear_arith);
    assert((n * s + k * c + b) * c == n * (s * c) + k * (c * c) + b * c) by (nonlinear_arith);
    assert((n * c - k * s + a) * s == n * (s * c) - k * (s * s) + a * s) by (nonlinear_arith);
    assert(n * (s * s + c * c) == n * (s * s) + n * (c * c)) by (nonlinear_arith);
    assert(k * (s * s + c * c) == k * (s * s) + k * (c * c)) by (nonlinear_arith);
}

/// Lift and drag made of a force across the chord and one along it give both back.
proof fn lemma_turned_back(lift: int, drag: int, n: int, k: int, t: Turn)
    requires
        is_unit(t),
        -4_000_000_000 <= n <= 4_000_000_000,
        -1_000_000_000 <= k <= 1_000_000_000,
        lift == scaled(n, t.cos as int) - scaled(k, t.sin as int),
        drag == scaled(n, t.sin as int) + scaled(k, t.cos as int),
    ensures
        -20 * ONE <= lift * t.cos + drag * t.sin - n * ONE <= 20 * ONE,
        -10 * ONE <= drag * t.cos - lift * t.sin - k * ONE <= 10 * ONE,
{
    let (s, c) = (t.sin as int, t.cos as int);
    let one = 1_000_000_000int;
    let a = one * lift - (n * c - k * s);
    let b = one * drag - (n * s + k * c);
    assert(-one <= a <= one && -2 * one <= b <= 0);
    let d = s * s + c * c - one * one;
    let x = lift * c + drag * s;
    let y = drag * c - lift * s;
    let (p, q) = (n * c - k * s + a, n * s + k * c + b);
    lemma_back(n, k, a, b, s, c);
    assert(p * c == one * (lift * c) && q * s == one * (drag * s) && q * c == one * (drag * c) && p
        * s == one * (lift * s)) by (nonlinear_arith)
        requires
            p == one * lift,
            q == one * drag,
    ;
    assert(n * (s * s + c * c) == one * (n * one) + n * d && k * (s * s + c * c) == one * (k * one)
        + k * d) by (nonlinear_arith)
        requires
            d == s * s + c * c - one * one,
    ;
    lemma_product(n, d, 4_000_000_000, 4_000_000_000);
    lemma_product(k, d, 1_000_000_000, 4_000_000_000);
    lemma_product(a, c, one, one);
    lemma_product(b, s, 2 * one, one);
    lemma_product(b, c, 2 * one, one);
    lemma_product(a, s, one, one);
}

/// A stalled surface still lifts: nose up it is pushed up, nose down pushed down, by
/// at least half the product of sine and cosine, and it always drags.
pub proof fn stalled_surfaces_still_lift(
    c: Coefficients,
    angle: int,
    skin: int,
    flap_angle: int,
    edge: int,
    t: Turn,
)
    requires
        is_stalled(c, angle, skin, flap_angle, edge, t),
        is_setting(skin, flap_angle, edge),
        is_turn(t),
        t.cos > 0,
    ensures
        t.sin > 0 ==> 2 * c.lift * ONE >= t.sin * t.cos - 20 * ONE,
        t.sin > 0 && t.sin * t.cos > 20 * ONE ==> c.lift > 0,
        t.sin < 0 ==> 2 * c.lift * ONE <= t.sin * t.cos + 20 * ONE,
        t.sin < 0 && t.sin * t.cos < -20 * ONE ==> c.lift < 0,
{
    let n = normal_of(flap_angle, edge, t);
    let tangential = scaled(skin, t.cos as int);
    let k = tangential / 2;
    lemma_normal(flap_angle, edge, t);
    let (s, co) = (t.sin as int, t.cos as int);
    assert(0 <= skin * co <= 1_000_000_000 * co) by (nonlinear_arith)
        requires
            0 <= skin <= 1_000_000_000,
            co > 0,
    ;
    assert(0 <= 2 * k <= co);
    let sc = s * co;
    if s > 0 {
        assert(n * co >= sc - 4 * co) by (nonlinear_arith)
            requires
                n >= s - 4,
                co > 0,
                sc == s * co,
        ;
        assert(2 * (k * s) <= sc) by (nonlinear_arith)
            requires
                2 * k <= co,
                s > 0,
                sc == s * co,
        ;
    }
    if s < 0 {
        assert(n * co <= sc + 4 * co) by (nonlinear_arith)
            requires
                n <= s + 4,
                co > 0,
                sc == s * co,
        ;
        assert(2 * (k * s) >= sc) by (nonlinear_arith)
            requires
                2 * k <= co,
                s < 0,
                sc == s * co,
        ;
    }
}

/// Turned over, a stalled surface lifts the other way, drags the same and is pitched the
/// other way.
pub proof fn stall_is_the_same_upside_down(
    c: Coefficients,
    d: Coefficients,
    angle: int,
    skin: int,
    flap_angle: int,
    edge: int,
    t: Turn,
    u: Turn,
)
    requires
        is_stalled(c, angle, skin, flap_angle, edge, t),
        is_stalled(d, -angle, skin, flap_angle, edge, u),
        is_setting(skin, flap_angle, edge),
        is_turn(t),
        u.cos == t.cos,
        u.sin == -t.sin,
        -60_000_000_000 <= angle <= 60_000_000_000,
    ensures
        -20 <= c.lift + d.lift <= 20,
        -20 <= c.drag - d.drag <= 20,
        -100 <= c.moment + d.moment <= 100,
{
    let cd = friction_at_90(flap_angle);
    lemma_friction(flap_angle);
    let (s, co) = (t.sin as int, t.cos as int);
    let sine = if s < 0 {
        -s
    } else {
        s
    };
    let base = 560_000_000 + scaled(440_000_000, sine);
    lemma_bluff(base);
    let shape = 1_000_000_000_000_000_000int / base - scaled(410_000_000, ONE - edge);
    assert(590_000_000 <= shape <= 1_785_714_286);
    let (p, q) = (scaled(cd, s), scaled(cd, -s));
    assert(cd * (-s) == -(cd * s)) by (nonlinear_arith);
    assert(-1 <= p + q <= 0);
    let (m, n) = (scaled(p, shape), scaled(q, shape));
    assert(p * shape + q * shape == (p + q) * shape) by (nonlinear_arith);
    assert(-1_785_714_286 <= (p + q) * shape <= 0) by (nonlinear_arith)
        requires
            -1 <= p + q <= 0,
            0 <= shape <= 1_785_714_286,
    ;
    assert(-4 <= m + n <= 0);
    let k = scaled(skin, co) / 2;
    assert(n * co == -(m * co) + (m + n) * co) by (nonlinear_arith);
    lemma_product(m + n, co, 4, 1_000_000_000);
    assert(k * (-s) == -(k * s)) by (nonlinear_arith);
    assert(n * (-s) == m * s - (m + n) * s) by (nonlinear_arith);
    lemma_product(m + n, s, 4, 1_000_000_000);
    let arm = moment_arm(angle);
    assert(moment_arm(-angle) == arm);
    lemma_arm(angle);
    assert(n * arm == -(m * arm) + (m + n) * arm) by (nonlinear_arith);
    lemma_product(m + n, arm, 4, 7_000_000_000);
}

proof fn lemma_arm(angle: int)
    requires
        -60_000_000_000 <= angle <= 60_000_000_000,
    ensures
        0 <= moment_arm(angle) <= 7_000_000_000,
{
    let size = if angle < 0 {
        -angle
    } else {
        angle
    };
    let n = 2 * size * ONE;
    let turned = n / (HALF_TURN as int);
    assert(0 <= turned <= 39_000_000_000);
}

/// Where the flow sees an endless edge, the force across the chord times 0.56 and 0.44
/// of the sine is the sine of what the surface drags square to the flow.
pub proof fn bluff_surfaces_push_less_than_their_sine(
    c: Coefficients,
    angle: int,
    skin: int,
    flap_angle: int,
    t: Turn,
)
    requires
        is_stalled(c, angle, skin, flap_angle, ONE as int, t),
        is_setting(skin, flap_angle, ONE as int),
        is_unit(t),
        t.sin >= 0,
    ensures
        ({
            let shape = 560_000_000 * ONE + 440_000_000 * t.sin;
            let slack = 100 * ONE * ONE * ONE;
            let square_on = friction_at_90(flap_angle);
            -slack <= pushes_across(c, t) * shape - square_on * t.sin * ONE * ONE <= slack
        }),
{
    let n = normal_of(flap_angle, ONE as int, t);
    let k = scaled(skin, t.cos as int) / 2;
    lemma_normal(flap_angle, ONE as int, t);
    lemma_product(skin, t.cos as int, 1_000_000_000, 1_000_000_000);
    lemma_turned_back(c.lift as int, c.drag as int, n, k, t);
    let one = 1_000_000_000int;
    let s = t.sin as int;
    let cd = friction_at_90(flap_angle);
    lemma_friction(flap_angle);
    let base = 560_000_000 + scaled(440_000_000, s);
    lemma_bluff(base);
    let bluff = 1_000_000_000_000_000_000int / base;
    let p = scaled(cd, s);
    lemma_product(cd, s, 2_170_000_000, one);
    assert(n == scaled(p, bluff));
    // n*one within one of p*bluff; p*one within one of cd*s; bluff*base within base of one^2.
    let e1 = p * bluff - n * one;
    let e2 = cd * s - p * one;
    let e3 = one * one - bluff * base;
    assert((bluff + 1) * base == bluff * base + base) by (nonlinear_arith);
    assert(0 <= e1 < one && 0 <= e2 < one && 0 <= e3 < base);
    let shape = 560_000_000 * one + 440_000_000 * s;
    let e4 = shape - one * base;
    assert(0 <= e4 < one);
    let x = pushes_across(c, t);
    let e5 = x - n * one;
    // n*one*base = p*(one^2 - e3) - e1*base.
    assert(n * one * base == p * (one * one) - p * e3 - e1 * base) by (nonlinear_arith)
        requires
            e1 == p * bluff - n * one,
            e3 == one * one - bluff * base,
    ;
    assert(p * (one * one) == one * (cd * s) - one * e2) by (nonlinear_arith)
        requires
            e2 == cd * s - p * one,
    ;
    assert(x * shape == one * (n * one * base) + n * one * e4 + e5 * shape) by (nonlinear_arith)
        requires
            x == n * one + e5,
            shape == one * base + e4,
    ;
    lemma_product(p, e3, 2_170_000_000, one);
    lemma_product(e1, base, one, one);
    let no = n * one;
    lemma_product(no, e4, 4_000_000_000_000_000_000, one);
    lemma_product(e5, shape, 20 * one, one * one);
    assert(cd * s * one * one == one * (one * (cd * s))) by (nonlinear_arith);
}

/// A shorter edge pushes less: for each share of the edge effect that is missing, the
/// force across the chord falls by 0.41 of that share of what the surface would push
/// were its force the plain sine.
pub proof fn short_edges_push_less(
    c: Coefficients,
    d: Coefficients,
    angle: int,
    skin: int,
    flap_angle: int,
    edge: int,
    t: Turn,
)
    requires
        is_stalled(c, angle, skin, flap_angle, edge, t),
        is_stalled(d, angle, skin, flap_angle, ONE as int, t),
        is_setting(skin, flap_angle, edge),
        is_unit(t),
    ensures
        ({
            let lost = pushes_across(d, t) - pushes_across(c, t);
            let plain = friction_at_90(flap_angle) * t.sin;
            let slack = 100 * ONE * ONE * ONE;
            -slack <= lost * ONE * ONE - 410_000_000 * (ONE - edge) * plain <= slack
        }),
{
    let one = 1_000_000_000int;
    let (m, n) = (normal_of(flap_angle, edge, t), normal_of(flap_angle, one, t));
    let k = scaled(skin, t.cos as int) / 2;
    lemma_normal(flap_angle, edge, t);
    lemma_normal(flap_angle, one, t);
    lemma_product(skin, t.cos as int, one, one);
    lemma_turned_back(c.lift as int, c.drag as int, m, k, t);
    lemma_turned_back(d.lift as int, d.drag as int, n, k, t);
    let s = t.sin as int;
    let cd = friction_at_90(flap_angle);
    lemma_friction(flap_angle);
    lemma_product(cd, s, 2_170_000_000, one);
    let p = scaled(cd, s);
    let sine = if s < 0 {
        -s
    } else {
        s
    };
    let bluff = 1_000_000_000_000_000_000int / (560_000_000 + scaled(440_000_000, sine));
    let cut = scaled(410_000_000, one - edge);
    assert(scaled(410_000_000, one - one) == 0);
    assert(m == scaled(p, bluff - cut) && n == scaled(p, bluff));
    assert(p * bluff == p * (bluff - cut) + p * cut) by (nonlinear_arith);
    // one*(n-m) within one of p*cut.
    let lost = pushes_across(d, t) - pushes_across(c, t);
    let e1 = p * cut - one * (n - m);
    assert(-one < e1 < one);
    let e2 = cd * s - p * one;
    let g = 410_000_000 * (one - edge);
    let e3 = g - cut * one;
    assert(0 <= e2 < one && 0 <= e3 < one);
    let e4 = lost - one * (n - m);
    assert(-40 * one <= e4 <= 40 * one);
    assert(g * (cd * s) == cut * one * (p * one) + cut * one * e2 + e3 * (cd * s)) by (nonlinear_arith)
        requires
            e2 == cd * s - p * one,
            e3 == g - cut * one,
    ;
    assert(cut * one * (p * one) == one * one * (p * cut)) by (nonlinear_arith);
    let co = cut * one;
    lemma_product(co, e2, one * one, one);
    lemma_product(e3, cd * s, one, 2_170_000_000_000_000_000);
}

/// Square to the flow a surface only drags: 1.98 with its flap straight, and with the
/// flap out 0.21 more for each radian less 0.0426 for each radian squared.
pub proof fn square_surfaces_drag(flap_angle: int)
    requires
        -MAX_DEFLECTION <= flap_angle <= MAX_DEFLECTION,
    ensures
        friction_at_90(0) == 1_980_000_000,
        ({
            let off = friction_at_90(flap_angle) - 1_980_000_000;
            -3 * ONE * ONE <= off * ONE * ONE - 210_000_000 * flap_angle * ONE + 42_600_000 * (
            flap_angle * flap_angle) <= 3 * ONE * ONE
        }),
{
    let f = flap_angle;
    assert(0 * 0 == 0);
    let sq = scaled(f, f);
}

/// The force across the chord acts 0.075 of it behind the leading edge in flow along the
/// chord, a quarter of it behind in flow square to it, and in between in proportion.
pub proof fn arm_moves_back_with_the_angle(angle: int)
    ensures
        moment_arm(0) == 75_000_000,
        moment_arm(-angle) == moment_arm(angle),
        angle >= 0 ==> {
            let back = moment_arm(angle) - 75_000_000;
            (back - 1) * HALF_TURN <= 350_000_000 * angle <= (back + 2) * HALF_TURN
        },
{
    if angle >= 0 {
        let n = 2 * angle * ONE;
        let turned = n / (HALF_TURN as int);
        assert(turned * HALF_TURN <= n < (turned + 1) * HALF_TURN);
    }
}

/// Attached flow lifts what its angle gives; along the chord it drags the skin's
/// friction, and its moment is that of the force across the chord, at its arm.
pub proof fn attached_flow_pushes_across_the_chord(
    c: Coefficients,
    lift: int,
    angle: int,
    skin: int,
    t: Turn,
)
    requires
        is_attached(c, lift, angle, skin, t),
        0 <= skin <= ONE,
        is_unit(t),
        t.cos >= 1_000_000 || t.cos <= -1_000_000,
        -16_000_000_000 <= lift <= 16_000_000_000,
    ensures
        c.lift == lift,
        -10 * ONE <= drags_along(c, t) - skin * t.cos <= 10 * ONE,
{
    let one = 1_000_000_000int;
    let (s, co) = (t.sin as int, t.cos as int);
    let k = scaled(skin, co);
    lemma_product(skin, co, one, one);
    let turned = scaled(s, k);
    let m = (lift + turned) * one;
    let n = over(m, co);
    let r = m - n * co;
    if co > 0 {
        vstd::arithmetic::div_mod::lemma_fundamental_div_mod(m, co);
        assert(r == m % co) by (nonlinear_arith)
            requires
                m == co * n + m % co,
                r == m - n * co,
        ;
    } else {
        vstd::arithmetic::div_mod::lemma_fundamental_div_mod(-m, -co);
        assert(-r == (-m) % (-co)) by (nonlinear_arith)
            requires
                -m == (-co) * n + (-m) % (-co),
                r == m - n * co,
        ;
    }
    assert(-one <= r <= one);
    let b = one * c.drag - (n * s + k * co);
    assert(-2 * one <= b <= 0);
    let e = s * k - one * turned;
    assert(0 <= e < one);
    let y = c.drag * co - lift * s;
    let (p, q) = (n * co - k * s + (r + e), n * s + k * co + b);
    lemma_back(n, k, r + e, b, s, co);
    let drag = c.drag as int;
    assert(k * s == s * k) by (nonlinear_arith);
    assert(p * s == one * (lift * s) && q * co == one * (drag * co)) by (nonlinear_arith)
        requires
            p == one * lift,
            q == one * drag,
    ;
    assert((r + e) * s == r * s + e * s) by (nonlinear_arith);
    let d = s * s + co * co - one * one;
    assert(k * (s * s + co * co) == one * (k * one) + k * d) by (nonlinear_arith)
        requires
            d == s * s + co * co - one * one,
    ;
    lemma_product(k, d, one, 4_000_000_000);
    lemma_product(b, co, 2 * one, one);
    lemma_product(e, s, one, one);
    lemma_product(r, s, one, one);
}

/// The moment of attached flow is that of the force across the chord, at its arm, nose
/// down; upside down it is the other way.
pub proof fn attached_moment_opposes_the_push(
    c: Coefficients,
    lift: int,
    angle: int,
    skin: int,
    t: Turn,
)
    requires
        is_attached(c, lift, angle, skin, t),
        0 <= skin <= ONE,
        is_turn(t),
        t.cos >= 1_000_000,
        moment_arm(angle) >= 0,
    ensures
        ({
            let across = (lift * ONE + t.sin * scaled(skin, t.cos as int)) * ONE;
            let arm = moment_arm(angle);
            let slack = 2 * ONE * ONE * arm + ONE * ONE * ONE;
            -slack <= c.moment * ONE * ONE * t.cos + across * arm <= slack
        }),
{
    let one = 1_000_000_000int;
    let (s, co) = (t.sin as int, t.cos as int);
    let k = scaled(skin, co);
    let turned = scaled(s, k);
    let m = (lift + turned) * one;
    let n = over(m, co);
    vstd::arithmetic::div_mod::lemma_fundamental_div_mod(m, co);
    let r = m % co;
    let arm = moment_arm(angle);
    let e = s * k - one * turned;
    assert(0 <= e < one);
    let g = n * arm + one * c.moment;
    assert(0 <= g < one);
    let across = (lift * one + s * k) * one;
    let moment = c.moment as int;
    assert(one * (moment * co) == g * co - n * arm * co) by (nonlinear_arith)
        requires
            g == n * arm + one * moment,
    ;
    assert(n * arm * co == (m - r) * arm) by (nonlinear_arith)
        requires
            m - r == co * n,
    ;
    assert((one * m - one * r) * arm == one * ((m - r) * arm)) by (nonlinear_arith);
    assert(c.moment * one * one * co == one * one * (c.moment * co)) by (nonlinear_arith);
    assert(across == one * m + e * one) by (nonlinear_arith)
        requires
            across == (lift * one + s * k) * one,
            m == (lift + turned) * one,
            e == s * k - one * turned,
    ;
    assert(across * arm == one * m * arm + e * one * arm) by (nonlinear_arith)
        requires
            across == one * m + e * one,
    ;
    assert((one * m - one * r) * arm == one * m * arm - one * r * arm) by (nonlinear_arith);
    let (er, rr) = (e * one, one * r);
    assert(0 <= er * arm <= one * one * arm) by (nonlinear_arith)
        requires
            0 <= er <= one * one,
            arm >= 0,
    ;
    assert(0 <= rr * arm <= one * one * arm) by (nonlinear_arith)
        requires
            0 <= rr <= one * one,
            arm >= 0,
    ;
    lemma_product(g, co, one, one);
    let w = 1_000_000_000_000_000_000int;
    let total = moment * ONE * ONE * co + across * arm;
    assert(moment * ONE * ONE * co == w * (moment * co)) by (nonlinear_arith)
        requires
            w == ONE * ONE,
    ;
    assert(total == one * (g * co) + rr * arm + er * arm);
    let slack = 2 * ONE * ONE * arm + ONE * ONE * ONE;
    assert(slack == 2 * w * arm + one * w && one * one * arm == w * arm) by (nonlinear_arith)
        requires
            slack == 2 * ONE * ONE * arm + ONE * ONE * ONE,
            w == ONE * ONE,
            w == one * one,
            one == ONE,
    ;
    assert(w * arm >= 0) by (nonlinear_arith)
        requires
            w > 0,
            arm >= 0,
    ;
    assert(2 * w * arm == 2 * (w * arm)) by (nonlinear_arith);
    assert(-slack <= total <= slack);
}

/// Between attached and separated flow each coefficient has gone the share of the way.
pub proof fn stall_sets_in_evenly(a: Coefficients, b: Coefficients, c: Coefficients, share: int)
    requires
        is_blend(c, a, b, share),
    ensures
        (c.lift - a.lift) * ONE <= (b.lift - a.lift) * share < (c.lift - a.lift + 1) * ONE,
        (c.drag - a.drag) * ONE <= (b.drag - a.drag) * share < (c.drag - a.drag + 1) * ONE,
        (c.moment - a.moment) * ONE <= (b.moment - a.moment) * share < (c.moment - a.moment + 1)
            * ONE,
{
}

}
