//! How the fuselage's drag, as the instruments report it, answers to the airspeed
//! and to the density of the air: with the square of the one and in proportion to
//! the other, whatever way the aircraft points and moves. What the roundings to nine
//! decimals can take is stated with each law.

use super::aircraft_physics::{drag_along, drag_strength};
use super::flight_config::FlightModelConfig;
use super::rigid_body::{
    against_path, body_drag, bounded, dot, in_frame, in_world, mix, turning_is_bounded, Axes,
};
use crate::fixed::{root, root_exists, scaled, ONE};
use crate::vector::{product_within, unit_of, Triple};
use vstd::prelude::*;

verus! {

/// The fuselage's drag against the flight path, for air of a density.
pub open spec fn path_drag(
    config: FlightModelConfig,
    density: int,
    axes: Axes,
    velocity: Triple,
) -> int {
    against_path(
        in_world(axes, body_drag(config, density, in_frame(axes, velocity))),
        velocity,
    )
}

/// The drag coefficients are at most `most`.
pub open spec fn drag_at_most(config: FlightModelConfig, most: int) -> bool {
    &&& 0 <= config.fuselage_drag.x <= most
    &&& 0 <= config.fuselage_drag.y <= most
    &&& 0 <= config.fuselage_drag.z <= most
}

/// `w` is `v` times a factor, up to `e` eighteenth decimals.
spec fn tracks(v: int, w: int, factor: int, e: int) -> bool {
    -e <= w * ONE - factor * v <= e
}

spec fn all_track(v: Triple, w: Triple, factor: int, e: int) -> bool {
    tracks(v.0, w.0, factor, e) && tracks(v.1, w.1, factor, e) && tracks(v.2, w.2, factor, e)
}

/// Sums of products keep a factor.
proof fn lemma_mix_tracks(a: Triple, v: Triple, w: Triple, most: int, factor: int, e: int)
    requires
        bounded(a, most * ONE),
        all_track(v, w, factor, e),
        0 <= most,
        0 <= factor,
    ensures
        tracks(mix(a, v), mix(a, w), factor, 3 * (most * e) + ONE + factor),
{
    let (x, y, z) = (w.0 * ONE - factor * v.0, w.1 * ONE - factor * v.1, w.2 * ONE - factor * v.2);
    product_within(a.0, x, most * ONE, e);
    product_within(a.1, y, most * ONE, e);
    product_within(a.2, z, most * ONE, e);
    assert((most * ONE) * e == ONE * (most * e)) by (nonlinear_arith);
    let (p, q) = (dot(a, v), dot(a, w));
    assert(a.0 * x == (a.0 * w.0) * ONE - factor * (a.0 * v.0)) by (nonlinear_arith)
        requires
            x == w.0 * ONE - factor * v.0,
    ;
    assert(a.1 * y == (a.1 * w.1) * ONE - factor * (a.1 * v.1)) by (nonlinear_arith)
        requires
            y == w.1 * ONE - factor * v.1,
    ;
    assert(a.2 * z == (a.2 * w.2) * ONE - factor * (a.2 * v.2)) by (nonlinear_arith)
        requires
            z == w.2 * ONE - factor * v.2,
    ;
    let (i, j, k) = (a.0 * v.0, a.1 * v.1, a.2 * v.2);
    assert(factor * (i + j + k) == factor * i + factor * j + factor * k) by (nonlinear_arith);
    let (m, n) = (mix(a, v), mix(a, w));
    let (r, s) = (p - ONE * m, q - ONE * n);
    assert(0 <= r < ONE && 0 <= s < ONE);
    assert(factor * p == ONE * (factor * m) + factor * r) by (nonlinear_arith)
        requires
            p == ONE * m + r,
    ;
    assert(0 <= factor * r <= factor * ONE) by (nonlinear_arith)
        requires
            0 <= factor,
            0 <= r <= ONE,
    ;
}

/// Turning keeps a factor.
proof fn lemma_turning_tracks(axes: Axes, v: Triple, w: Triple, factor: int, e: int)
    requires
        axes.wf(),
        all_track(v, w, factor, e),
        0 <= factor,
    ensures
        all_track(in_world(axes, v), in_world(axes, w), factor, 3 * e + ONE + factor),
{
    lemma_mix_tracks((axes.x.x as int, axes.y.x as int, axes.z.x as int), v, w, 1, factor, e);
    lemma_mix_tracks((axes.x.y as int, axes.y.y as int, axes.z.y as int), v, w, 1, factor, e);
    lemma_mix_tracks((axes.x.z as int, axes.y.z as int, axes.z.z as int), v, w, 1, factor, e);
}

/// A direction of unit length has no component beyond two.
proof fn lemma_unit_bounded(v: Triple)
    ensures
        bounded(unit_of(v), 2 * ONE),
{
    let n = v.0 * v.0 + v.1 * v.1 + v.2 * v.2;
    assert(v.0 * v.0 >= 0 && v.1 * v.1 >= 0 && v.2 * v.2 >= 0) by (nonlinear_arith);
    root_exists(n);
    let l = root(n);
    if l > 0 {
        lemma_unit_part(v.0, l, n);
        lemma_unit_part(v.1, l, n);
        lemma_unit_part(v.2, l, n);
    }
}

proof fn lemma_unit_part(c: int, l: int, n: int)
    requires
        0 < l,
        c * c <= n,
        n < (l + 1) * (l + 1),
    ensures
        -l <= c <= l,
        -(2 * ONE) <= (c * ONE) / l <= 2 * ONE,
{
    assert(-l <= c <= l) by (nonlinear_arith)
        requires
            c * c < (l + 1) * (l + 1),
            0 < l,
    ;
    let m = c * ONE;
    vstd::arithmetic::div_mod::lemma_fundamental_div_mod(m, l);
    let (q, r) = (m / l, m % l);
    assert(-2_000_000_000 <= q <= 2_000_000_000) by (nonlinear_arith)
        requires
            m == l * q + r,
            0 <= r < l,
            -(l * 1_000_000_000) <= m <= l * 1_000_000_000,
    ;
}

/// What the roundings can take of a drag that is multiplied by a density ratio, with
/// eighteen decimals: `c` bounds the coefficients, `m` the speed along each axis.
pub open spec fn ratio_slack(c: int, m: int) -> int {
    (scaled(m, m) * (c + 2 * ONE)) / 2_000_000_000 + 3 * ONE
}

proof fn lemma_strength_follows_density(density: int, ratio: int, cda: int, c: int, v: int, m: int)
    requires
        0 <= density,
        0 <= ratio <= ONE,
        0 <= cda <= c,
        -m <= v <= m,
    ensures
        tracks(
            drag_along(density, cda, v),
            drag_along(scaled(density, ratio), cda, v),
            ratio,
            ratio_slack(c, m),
        ),
{
    let thin = scaled(density, ratio);
    let (k, j) = (scaled(density, cda), scaled(thin, cda));
    let s = scaled(v, v);
    let most = scaled(m, m);
    assert(0 <= v * v <= m * m) by (nonlinear_arith)
        requires
            -m <= v <= m,
    ;
    // The coefficient first.
    let (a, b, d) = (
        density * ratio - ONE * thin,
        thin * cda - ONE * j,
        density * cda - ONE * k,
    );
    assert(0 <= a < ONE && 0 <= b < ONE && 0 <= d < ONE);
    assert(ONE * (j * ONE - ratio * k) == ratio * d - a * cda - ONE * b) by (nonlinear_arith)
        requires
            a == density * ratio - ONE * thin,
            b == thin * cda - ONE * j,
            d == density * cda - ONE * k,
    ;
    assert(0 <= ratio * d <= ONE * ONE && 0 <= a * cda <= ONE * c) by (nonlinear_arith)
        requires
            0 <= ratio <= ONE,
            0 <= d <= ONE,
            0 <= a <= ONE,
            0 <= cda <= c,
    ;
    let x = j * ONE - ratio * k;
    assert(-(c + ONE) <= x <= ONE);
    // Then the strength.
    let (p, q) = (drag_strength(density, cda, v), drag_strength(thin, cda, v));
    let (e, f) = (k * s - 2_000_000_000 * p, j * s - 2_000_000_000 * q);
    assert(0 <= e < 2_000_000_000 && 0 <= f < 2_000_000_000);
    assert(2_000_000_000 * (q * ONE - ratio * p) == s * x - f * ONE + ratio * e)
        by (nonlinear_arith)
        requires
            x == j * ONE - ratio * k,
            e == k * s - 2_000_000_000 * p,
            f == j * s - 2_000_000_000 * q,
    ;
    assert(0 <= ratio * e <= ONE * 2_000_000_000) by (nonlinear_arith)
        requires
            0 <= ratio <= ONE,
            0 <= e <= 2_000_000_000,
    ;
    let g = c + 2 * ONE;
    assert(-(most * g) <= s * x <= most * g) by (nonlinear_arith)
        requires
            0 <= s <= most,
            -g <= x <= g,
            0 <= g,
    ;
    assert(ratio * (-p) == -(ratio * p)) by (nonlinear_arith);
}

/// The reported drag of the fuselage is in proportion to the density: in air that is
/// thinner by a ratio it is the drag at full density times that ratio, in whatever
/// direction the aircraft points and moves.
pub proof fn drag_follows_the_density(
    config: FlightModelConfig,
    density: int,
    ratio: int,
    axes: Axes,
    velocity: Triple,
    c: int,
    m: int,
)
    requires
        axes.wf(),
        0 <= density,
        0 <= ratio <= ONE,
        drag_at_most(config, c),
        bounded(in_frame(axes, velocity), m),
    ensures
        ({
            let full = path_drag(config, density, axes, velocity);
            let thin = path_drag(config, scaled(density, ratio), axes, velocity);
            let slack = 40 * ratio_slack(c, m);
            -slack <= thin * ONE - ratio * full <= slack
        }),
{
    let v = in_frame(axes, velocity);
    let e = ratio_slack(c, m);
    lemma_strength_follows_density(density, ratio, config.fuselage_drag.x as int, c, v.0, m);
    lemma_strength_follows_density(density, ratio, config.fuselage_drag.y as int, c, v.1, m);
    lemma_strength_follows_density(density, ratio, config.fuselage_drag.z as int, c, v.2, m);
    let p = body_drag(config, density, v);
    let q = body_drag(config, scaled(density, ratio), v);
    lemma_turning_tracks(axes, p, q, ratio, e);
    let (f, g) = (in_world(axes, p), in_world(axes, q));
    lemma_unit_bounded(velocity);
    lemma_mix_tracks(unit_of(velocity), f, g, 2, ratio, 3 * e + ONE + ratio);
    let (x, y) = (mix(unit_of(velocity), f), mix(unit_of(velocity), g));
    assert(ratio * (-x) == -(ratio * x)) by (nonlinear_arith);
    assert(0 <= scaled(m, m)) by {
        assert(m * m >= 0) by (nonlinear_arith);
    }
    let h = scaled(m, m);
    assert(0 <= h * (c + 2 * ONE)) by (nonlinear_arith)
        requires
            0 <= h,
            0 <= c,
    ;
}

/// What the roundings can take of one axis's drag when the speed doubles: `k` bounds
/// the density times the coefficient, `m` the speed along each axis.
pub open spec fn doubling_slack(k: int, m: int) -> int {
    (k * ((4 * m) / (ONE as int) + 6)) / 2_000_000_000 + 6
}

proof fn lemma_strength_quadruples(density: int, cda: int, k: int, w: int, v: int, m: int)
    requires
        0 <= density,
        0 <= cda,
        scaled(density, cda) <= k,
        -m <= w <= m,
        2 * w <= v <= 2 * w + 1,
    ensures
        tracks(
            drag_along(density, cda, w),
            drag_along(density, cda, v),
            4 * ONE,
            ONE * doubling_slack(k, m),
        ),
{
    let j = scaled(density, cda);
    assert(0 <= density * cda) by (nonlinear_arith)
        requires
            0 <= density,
            0 <= cda,
    ;
    let (s, t) = (scaled(w, w), scaled(v, v));
    let i = v - 2 * w;
    assert(v * v == 4 * (w * w) + 4 * (w * i) + i * i) by (nonlinear_arith)
        requires
            v == 2 * w + i,
    ;
    assert(-m <= w * i <= m && 0 <= i * i <= 1) by (nonlinear_arith)
        requires
            -m <= w <= m,
            0 <= i <= 1,
    ;
    assert(0 <= w * w) by (nonlinear_arith);
    let g = (4 * m) / (ONE as int) + 6;
    let x = t - 4 * s;
    assert(-g <= x <= g);
    let (p, q) = (drag_strength(density, cda, w), drag_strength(density, cda, v));
    assert(j * t == 4 * (j * s) + j * x) by (nonlinear_arith)
        requires
            x == t - 4 * s,
    ;
    assert(-(k * g) <= j * x <= k * g) by (nonlinear_arith)
        requires
            0 <= j <= k,
            -g <= x <= g,
    ;
    assert(-doubling_slack(k, m) <= q - 4 * p <= doubling_slack(k, m));
}

/// A direction and the same twice as long are alike, but for the last decimals.
proof fn lemma_unit_of_doubled(v: Triple)
    requires
        root(v.0 * v.0 + v.1 * v.1 + v.2 * v.2) >= ONE,
    ensures
        ({
            let (a, b) = (unit_of(v), unit_of((2 * v.0, 2 * v.1, 2 * v.2)));
            bounded((b.0 - a.0, b.1 - a.1, b.2 - a.2), 2)
        }),
{
    let n = v.0 * v.0 + v.1 * v.1 + v.2 * v.2;
    assert(v.0 * v.0 >= 0 && v.1 * v.1 >= 0 && v.2 * v.2 >= 0) by (nonlinear_arith);
    root_exists(n);
    let l = root(n);
    let w = (2 * v.0, 2 * v.1, 2 * v.2);
    assert(w.0 * w.0 == 4 * (v.0 * v.0)) by (nonlinear_arith)
        requires
            w.0 == 2 * v.0,
    ;
    assert(w.1 * w.1 == 4 * (v.1 * v.1)) by (nonlinear_arith)
        requires
            w.1 == 2 * v.1,
    ;
    assert(w.2 * w.2 == 4 * (v.2 * v.2)) by (nonlinear_arith)
        requires
            w.2 == 2 * v.2,
    ;
    root_exists(4 * n);
    let h = root(4 * n);
    assert(2 * l <= h <= 2 * l + 1) by (nonlinear_arith)
        requires
            0 <= l,
            0 <= h,
            l * l <= n,
            n < (l + 1) * (l + 1),
            h * h <= 4 * n,
            4 * n < (h + 1) * (h + 1),
    ;
    lemma_doubled_part(v.0, l, h, n);
    lemma_doubled_part(v.1, l, h, n);
    lemma_doubled_part(v.2, l, h, n);
}

proof fn lemma_doubled_part(c: int, l: int, h: int, n: int)
    requires
        ONE <= l,
        2 * l <= h <= 2 * l + 1,
        c * c <= n,
        n < (l + 1) * (l + 1),
    ensures
        -2 <= ((2 * c) * ONE) / h - (c * ONE) / l <= 2,
{
    lemma_unit_part(c, l, n);
    let (x, y) = (c * ONE, (2 * c) * ONE);
    vstd::arithmetic::div_mod::lemma_fundamental_div_mod(x, l);
    vstd::arithmetic::div_mod::lemma_fundamental_div_mod(y, h);
    let (p, r) = (x / l, x % l);
    let (q, s) = (y / h, y % h);
    let i = h - 2 * l;
    // 2 x is both 2 l p + 2 r and (2 l + i) q + s.
    assert((2 * l) * (q - p) == 2 * r - i * q - s) by (nonlinear_arith)
        requires
            x == l * p + r,
            2 * x == h * q + s,
            h == 2 * l + i,
    ;
    assert(-1_000_000_001 <= q <= 1_000_000_000) by (nonlinear_arith)
        requires
            2 * x == h * q + s,
            0 <= s < h,
            2 * l <= h,
            -(l * 1_000_000_000) <= x <= l * 1_000_000_000,
            0 < l,
    ;
    assert(-1_000_000_001 <= i * q <= 1_000_000_001) by (nonlinear_arith)
        requires
            0 <= i <= 1,
            -1_000_000_001 <= q <= 1_000_000_000,
    ;
    let d = q - p;
    assert(-2 <= d <= 2) by (nonlinear_arith)
        requires
            -(5 * l) <= (2 * l) * d <= 5 * l,
            0 < l,
    ;
}

/// The largest drag along any of the axes.
pub open spec fn largest(v: Triple) -> int {
    let (x, y, z) = (magnitude(v.0), magnitude(v.1), magnitude(v.2));
    if x >= y && x >= z {
        x
    } else if y >= z {
        y
    } else {
        z
    }
}

pub open spec fn magnitude(v: int) -> int {
    if v < 0 {
        -v
    } else {
        v
    }
}

/// Doubling the speed quadruples the reported drag of the fuselage, in whatever
/// direction the aircraft points and moves, from one metre a second up: to seven
/// digits of the largest drag along a body axis, and what the last decimals take.
pub proof fn drag_quadruples_at_twice_the_speed(
    config: FlightModelConfig,
    density: int,
    axes: Axes,
    velocity: Triple,
    k: int,
    m: int,
)
    requires
        axes.wf(),
        0 <= density,
        config.draggable(),
        scaled(density, config.fuselage_drag.x as int) <= k,
        scaled(density, config.fuselage_drag.y as int) <= k,
        scaled(density, config.fuselage_drag.z as int) <= k,
        bounded(in_frame(axes, velocity), m),
        root(velocity.0 * velocity.0 + velocity.1 * velocity.1 + velocity.2 * velocity.2) >= ONE,
    ensures
        ({
            let slow = path_drag(config, density, axes, velocity);
            let fast = path_drag(
                config,
                density,
                axes,
                (2 * velocity.0, 2 * velocity.1, 2 * velocity.2),
            );
            let most = largest(body_drag(config, density, in_frame(axes, velocity)));
            let slack = 40 * doubling_slack(k, m) + most / 10_000_000;
            -slack <= fast - 4 * slow <= slack
        }),
{
    let twice = (2 * velocity.0, 2 * velocity.1, 2 * velocity.2);
    let (v, w) = (in_frame(axes, velocity), in_frame(axes, twice));
    lemma_mix_doubles(axes.x.parts(), velocity);
    lemma_mix_doubles(axes.y.parts(), velocity);
    lemma_mix_doubles(axes.z.parts(), velocity);
    let e = doubling_slack(k, m);
    lemma_strength_quadruples(density, config.fuselage_drag.x as int, k, v.0, w.0, m);
    lemma_strength_quadruples(density, config.fuselage_drag.y as int, k, v.1, w.1, m);
    lemma_strength_quadruples(density, config.fuselage_drag.z as int, k, v.2, w.2, m);
    let (p, q) = (body_drag(config, density, v), body_drag(config, density, w));
    lemma_turning_tracks(axes, p, q, 4 * ONE, ONE * e);
    let (f, g) = (in_world(axes, p), in_world(axes, q));
    let (u, t) = (unit_of(velocity), unit_of(twice));
    lemma_unit_bounded(velocity);
    lemma_mix_tracks(u, f, g, 2, 4 * ONE, 3 * (ONE * e) + ONE + 4 * ONE);
    assert(-(18 * e + 40) <= mix(u, g) - 4 * mix(u, f) <= 18 * e + 40);
    let most = largest(p);
    assert(bounded(q, 4 * most + e));
    turning_is_bounded(axes, q, 4 * most + e);
    lemma_unit_of_doubled(velocity);
    let b = 12 * most + 3 * e;
    let d = (t.0 - u.0, t.1 - u.1, t.2 - u.2);
    product_within(d.0, g.0, 2, b);
    product_within(d.1, g.1, 2, b);
    product_within(d.2, g.2, 2, b);
    assert(t.0 * g.0 == u.0 * g.0 + d.0 * g.0) by (nonlinear_arith)
        requires
            d.0 == t.0 - u.0,
    ;
    assert(t.1 * g.1 == u.1 * g.1 + d.1 * g.1) by (nonlinear_arith)
        requires
            d.1 == t.1 - u.1,
    ;
    assert(t.2 * g.2 == u.2 * g.2 + d.2 * g.2) by (nonlinear_arith)
        requires
            d.2 == t.2 - u.2,
    ;
    assert(e >= 6) by {
        assert(0 <= k * ((4 * m) / (ONE as int) + 6)) by {
            let h = (4 * m) / (ONE as int) + 6;
            assert(density * config.fuselage_drag.x >= 0) by (nonlinear_arith)
                requires
                    0 <= density,
                    0 <= config.fuselage_drag.x,
            ;
            assert(0 <= k * h) by (nonlinear_arith)
                requires
                    0 <= k,
                    0 <= h,
            ;
        }
    }
}

proof fn lemma_mix_doubles(a: Triple, v: Triple)
    ensures
        2 * mix(a, v) <= mix(a, (2 * v.0, 2 * v.1, 2 * v.2)) <= 2 * mix(a, v) + 1,
{
    assert(a.0 * (2 * v.0) == 2 * (a.0 * v.0)) by (nonlinear_arith);
    assert(a.1 * (2 * v.1) == 2 * (a.1 * v.1)) by (nonlinear_arith);
    assert(a.2 * (2 * v.2) == 2 * (a.2 * v.2)) by (nonlinear_arith);
}

}
