//! How a surface's shape, flap and angle make its lift curve, and how the air's speed
//! and density make the force: laws over polars, flows and forces.

use super::aero_model::{
    along, attached_angle, attached_lift, corrected_slope, flap_correction, ground_effect,
    induced_angle, is_flow, is_force, is_polar, padding_high, padding_low, polar_in_range,
    pressure_force, slope_divisor, stalled_angle, Coefficients, Flow, Polar, SurfaceForce,
    QUARTER_TURN,
};
use super::aero_surface::{max_lift_share, AeroSurface, MAX_DEFLECTION};
use super::aero_surface_config::AeroSurfaceConfig;
use crate::angle::{degrees, radians};
use crate::fixed::{chain_of_products, root, scaled, ONE};
use crate::terrain::runway::HALF_TURN;
use vstd::prelude::*;

verus! {

/// A finite wing of aspect ratio `a` keeps, of the lift slope of an endless one, the
/// share of `a (a + 2)` in `a (a + 2) + 2 (a + 4)`.
pub proof fn finite_span_costs_lift(slope: int, aspect: int)
    requires
        0 <= slope,
        0 < aspect,
    ensures
        ({
            let kept = corrected_slope(slope, aspect);
            let part = aspect * (aspect + 2 * ONE);
            let whole = part + 2 * (aspect + 4 * ONE) * ONE;
            -whole <= kept * whole - slope * part <= kept * (aspect + 2 * ONE)
        }),
{
    let x = aspect + 2 * ONE;
    let n = 2 * (aspect + 4 * ONE) * ONE;
    let d = slope_divisor(aspect);
    vstd::arithmetic::div_mod::lemma_fundamental_div_mod(n, x);
    let r = n % x;
    let e = n / x;
    assert(d == aspect + e);
    assert(e >= 0) by (nonlinear_arith)
        requires
            n == x * e + r,
            0 <= r < x,
            n >= 0,
    ;
    let m = slope * aspect;
    vstd::arithmetic::div_mod::lemma_fundamental_div_mod(m, d);
    let q = m / d;
    let r2 = m % d;
    let whole = aspect * x + n;
    assert(q >= 0) by (nonlinear_arith)
        requires
            m == d * q + r2,
            0 <= r2 < d,
            m == slope * aspect,
            slope >= 0,
            aspect > 0,
    ;
    assert(d * x == whole - r) by (nonlinear_arith)
        requires
            d == aspect + e,
            n == x * e + r,
            whole == aspect * x + n,
    ;
    assert(q * whole == q * (d * x) + q * r) by (nonlinear_arith)
        requires
            d * x == whole - r,
    ;
    assert(q * (d * x) == (d * q) * x) by (nonlinear_arith);
    assert((d * q) * x == slope * (aspect * x) - r2 * x) by (nonlinear_arith)
        requires
            slope * aspect == d * q + r2,
    ;
    assert(0 <= q * r <= q * x) by (nonlinear_arith)
        requires
            0 <= r < x,
            q >= 0,
    ;
    assert(0 <= r2 * x <= d * x) by (nonlinear_arith)
        requires
            0 <= r2 < d,
            x > 0,
    ;
}

/// A flap keeps 0.88 of its effect when it is straight and 0.008 less of it for each
/// degree that it is out, either way.
pub proof fn flaps_lose_effect_as_they_deflect(angle: int)
    ensures
        flap_correction(0) == 880_000_000,
        flap_correction(-angle) == flap_correction(angle),
        angle >= 0 ==> {
            let lost = 880_000_000 - flap_correction(angle);
            (lost - 1) * 1000 <= 8 * degrees(angle) <= (lost + 1) * 1000
        },
{
}

/// With its flap straight a surface lifts nothing, and stalls, where its shape says, and
/// the stall has set in fully ten degrees further on.
pub proof fn straight_flaps_change_nothing(
    p: Polar,
    s: AeroSurface,
    effectiveness: int,
    aspect: int,
)
    requires
        is_polar(p, s, effectiveness, aspect),
        s.flap_angle == 0,
    ensures
        p.zero_lift == radians(s.config.zero_lift_aoa as int),
        p.stall_high == radians(s.config.stall_angle_high as int),
        p.stall_low == radians(s.config.stall_angle_low as int),
        p.padded_high - p.stall_high == 174_532_925,
        p.stall_low - p.padded_low == 174_532_925,
        p.slope == corrected_slope(s.config.lift_slope as int, aspect),
{
    let k = scaled(effectiveness, flap_correction(0));
    assert(k * 0 == 0);
    let share = max_lift_share(s.config.flap_fraction as int);
    assert(0 * share == 0);
    assert(degrees(0) == 0);
}

/// A flap let down by `angle` lowers the angle of no lift by its effectiveness times what
/// it keeps of its effect times the angle; both stalls move down with it, less the share
/// that still counts at the stall, and the slope stays.
pub proof fn flaps_move_the_lift_curve(
    p: Polar,
    s: AeroSurface,
    effectiveness: int,
    aspect: int,
)
    requires
        is_polar(p, s, effectiveness, aspect),
        s.flap_angle >= 0,
    ensures
        ({
            let angle = s.flap_angle as int;
            let c = s.config;
            let lower = radians(c.zero_lift_aoa as int) - p.zero_lift;
            let high = radians(c.stall_angle_high as int) - p.stall_high;
            let low = radians(c.stall_angle_low as int) - p.stall_low;
            let share = max_lift_share(c.flap_fraction as int);
            let whole = effectiveness * flap_correction(angle) * angle;
            &&& lower * ONE * ONE <= whole < (lower + 1) * ONE * ONE + ONE * angle
            &&& high == low
            &&& (lower - high) * ONE <= lower * share < (lower - high + 1) * ONE
        }),
        p.slope == corrected_slope(s.config.lift_slope as int, aspect),
{
    chain_of_products(effectiveness, flap_correction(s.flap_angle as int), s.flap_angle as int);
}

/// A flap that is up moves the curve up as far as the same flap down moves it down.
pub proof fn flaps_work_both_ways(
    p: Polar,
    q: Polar,
    s: AeroSurface,
    t: AeroSurface,
    effectiveness: int,
    aspect: int,
)
    requires
        is_polar(p, s, effectiveness, aspect),
        is_polar(q, t, effectiveness, aspect),
        t.config == s.config,
        t.flap_angle == -s.flap_angle,
    ensures
        ({
            let c = s.config;
            let down = radians(c.zero_lift_aoa as int) - p.zero_lift;
            let up = q.zero_lift - radians(c.zero_lift_aoa as int);
            let later = radians(c.stall_angle_high as int) - p.stall_high;
            let sooner = q.stall_high - radians(c.stall_angle_high as int);
            0 <= up - down <= 1 && -1 <= sooner - later <= 3
        }),
        p.slope == q.slope,
{
    let a = s.flap_angle as int;
    let k = scaled(effectiveness, flap_correction(a));
    assert(flap_correction(-a) == flap_correction(a));
    assert(k * (-a) == -(k * a)) by (nonlinear_arith);
    let share = max_lift_share(s.config.flap_fraction as int);
    let (x, y) = (scaled(k, a), scaled(k, -a));
    assert(x * share + y * share == (x + y) * share) by (nonlinear_arith);
    assert(-ONE <= (x + y) * share <= 0) by (nonlinear_arith)
        requires
            -1 <= x + y <= 0,
            0 <= share <= 1_000_000_000,
            ONE == 1_000_000_000,
    ;
}

/// With the flap down the stall sets in over a shorter way above and a longer one below,
/// by a tenth of the deflection, around ten degrees.
pub proof fn flaps_sharpen_the_stall(angle: int)
    requires
        -MAX_DEFLECTION <= angle <= MAX_DEFLECTION,
    ensures
        -30 <= 10 * padding_high(angle) + angle - 1_745_329_252 <= 30,
        -30 <= 10 * padding_low(angle) - angle - 1_745_329_252 <= 30,
{
    let d = degrees(angle);
    assert(d * HALF_TURN <= angle * 180_000_000_000 < (d + 1) * HALF_TURN);
    let h = 15_000_000_000 - (d + 50_000_000_000) / 10;
    let l = 15_000_000_000 - (50_000_000_000 - d) / 10;
    assert(padding_high(angle) * 180_000_000_000 <= h * HALF_TURN + 90_000_000_000 < (padding_high(
        angle,
    ) + 1) * 180_000_000_000);
    assert(padding_low(angle) * 180_000_000_000 <= l * HALF_TURN + 90_000_000_000 < (padding_low(
        angle,
    ) + 1) * 180_000_000_000);
}

/// Attached flow lifts the slope times the angle from no lift; what the trailing vortices
/// take from that angle is the lift over pi times the aspect ratio.
pub proof fn attached_flow_follows_the_slope(f: Flow, p: Polar, aspect: int, aoa: int)
    requires
        is_flow(f, p, aspect, aoa),
        p.stall_low < aoa < p.stall_high,
        scaled(HALF_TURN as int, aspect) > 0,
    ensures
        f matches Flow::Attached { lift, angle } && {
            let off = aoa - p.zero_lift;
            let taken = off - angle;
            let wide = scaled(HALF_TURN as int, aspect);
            &&& lift * ONE <= p.slope * off < (lift + 1) * ONE
            &&& taken * wide <= lift * ONE < (taken + 1) * wide
        },
{
    let lift = attached_lift(p, aoa);
    lemma_quotient(lift * ONE, scaled(HALF_TURN as int, aspect));
}

proof fn lemma_quotient(n: int, d: int)
    requires
        d > 0,
    ensures
        (n / d) * d <= n < (n / d + 1) * d,
{
    vstd::arithmetic::div_mod::lemma_fundamental_div_mod(n, d);
    let q = n / d;
    let r = n % d;
    assert(q * d <= n < (q + 1) * d) by (nonlinear_arith)
        requires
            n == d * q + r,
            0 <= r < d,
    ;
}

/// Past the upper stall the vortices take less and less: of what they take at the stall,
/// the share of the way that is left to the quarter turn, and nothing beyond it.
pub proof fn vortices_fade_above_the_stall(p: Polar, aspect: int, aoa: int)
    requires
        polar_in_range(p),
        p.stall_high < aoa,
    ensures
        ({
            let full = p.stall_high - p.zero_lift - attached_angle(
                p,
                aspect,
                p.stall_high as int,
            );
            let taken = aoa - p.zero_lift - stalled_angle(p, aspect, aoa);
            &&& aoa >= QUARTER_TURN ==> taken == 0
            &&& aoa < QUARTER_TURN ==> is_part(
                taken,
                full,
                QUARTER_TURN - aoa,
                QUARTER_TURN - p.stall_high,
            )
        }),
{
    let full = induced_angle(attached_lift(p, p.stall_high as int), aspect);
    let way = QUARTER_TURN - p.stall_high;
    if aoa >= QUARTER_TURN {
        assert(0 * ONE / way == 0) by {
            vstd::arithmetic::div_mod::lemma_div_basics(way);
        }
        assert(full * 0 == 0);
    } else {
        lemma_part(full, QUARTER_TURN - aoa, way);
    }
}

/// Below the lower stall they do the same, toward the quarter turn the other way.
pub proof fn vortices_fade_below_the_stall(p: Polar, aspect: int, aoa: int)
    requires
        polar_in_range(p),
        aoa <= p.stall_low,
        aoa <= p.stall_high,
    ensures
        ({
            let full = p.stall_low - p.zero_lift - attached_angle(p, aspect, p.stall_low as int);
            let taken = aoa - p.zero_lift - stalled_angle(p, aspect, aoa);
            &&& aoa <= -QUARTER_TURN ==> taken == 0
            &&& aoa > -QUARTER_TURN ==> is_part(
                taken,
                full,
                QUARTER_TURN + aoa,
                QUARTER_TURN + p.stall_low,
            )
        }),
{
    let full = induced_angle(attached_lift(p, p.stall_low as int), aspect);
    let way = QUARTER_TURN + p.stall_low;
    if aoa <= -QUARTER_TURN {
        assert(0 * ONE / way == 0) by {
            vstd::arithmetic::div_mod::lemma_div_basics(way);
        }
        assert(full * 0 == 0);
    } else {
        lemma_part(full, QUARTER_TURN + aoa, way);
    }
}

/// `part` is to `full` as `left` is to `way`, up to rounding.
pub open spec fn is_part(part: int, full: int, left: int, way: int) -> bool {
    let slack = way * ONE + if full < 0 {
        -full * way
    } else {
        full * way
    };
    -slack <= part * way * ONE - full * left * ONE <= slack
}

proof fn lemma_part(full: int, left: int, way: int)
    requires
        way > 0,
    ensures
        is_part(scaled(full, (left * ONE) / way), full, left, way),
{
    let share = (left * ONE) / way;
    lemma_quotient(left * ONE, way);
    let r = left * ONE - share * way;
    assert(0 <= r < way) by (nonlinear_arith)
        requires
            r == left * ONE - share * way,
            share * way <= left * ONE,
            left * ONE < (share + 1) * way,
    ;
    let part = scaled(full, share);
    let e = full * share - part * ONE;
    assert(0 <= e < ONE);
    let one = ONE as int;
    assert(part * way * one == full * (share * way) - e * way) by (nonlinear_arith)
        requires
            e == full * share - part * one,
    ;
    assert(full * (share * way) == full * left * one - full * r) by (nonlinear_arith)
        requires
            r == left * one - share * way,
    ;
    assert(0 <= e * way <= way * one) by (nonlinear_arith)
        requires
            0 <= e < one,
            way > 0,
    ;
    let size = if full < 0 {
        -full
    } else {
        full
    };
    assert(-(size * way) <= full * r <= size * way) by (nonlinear_arith)
        requires
            0 <= r < way,
            -size <= full <= size,
            size >= 0,
    ;
    assert((-full) * way == -(full * way)) by (nonlinear_arith);
}

/// While the stall sets in the attached part is what it was at the stall, the separated
/// part what it will be once the stall is complete, and the share of the latter is how
/// far the angle of attack has come.
pub proof fn stall_sets_in_between_its_angles(f: Flow, p: Polar, aspect: int, aoa: int)
    requires
        polar_in_range(p),
        is_flow(f, p, aspect, aoa),
        p.stall_low < p.stall_high,
    ensures
        p.stall_high < aoa <= p.padded_high ==> (f matches Flow::Leaving {
            lift,
            angle,
            stalled_angle: past,
            share,
        } && {
            let way = p.padded_high - p.stall_high;
            &&& lift == attached_lift(p, p.stall_high as int)
            &&& angle == attached_angle(p, aspect, p.stall_high as int)
            &&& past == stalled_angle(p, aspect, p.padded_high as int)
            &&& share * way <= (aoa - p.stall_high) * ONE < (share + 1) * way
        }),
        p.padded_low <= aoa <= p.stall_low ==> (f matches Flow::Leaving {
            lift,
            angle,
            stalled_angle: past,
            share,
        } && {
            let way = p.stall_low - p.padded_low;
            &&& lift == attached_lift(p, p.stall_low as int)
            &&& angle == attached_angle(p, aspect, p.stall_low as int)
            &&& past == stalled_angle(p, aspect, p.padded_low as int)
            &&& share * way <= (p.stall_low - aoa) * ONE < (share + 1) * way
        }),
        aoa > p.padded_high || aoa < p.padded_low ==> f == (Flow::Stalled {
            angle: stalled_angle(p, aspect, aoa) as i64,
        }),
{
    lemma_quotient((aoa - p.stall_high) * ONE, p.padded_high - p.stall_high);
    lemma_quotient((p.stall_low - aoa) * ONE, p.stall_low - p.padded_low);
}

/// What a flap still counts for at the stall falls from all for a tenth of the chord to
/// nothing for seven tenths.
pub proof fn large_flaps_count_less_at_the_stall(flap_fraction: int)
    ensures
        flap_fraction <= 100_000_000 ==> max_lift_share(flap_fraction) == ONE,
        flap_fraction >= 700_000_000 ==> max_lift_share(flap_fraction) == 0,
        100_000_000 <= flap_fraction <= 700_000_000 ==> {
            let lost = ONE - max_lift_share(flap_fraction);
            3 * lost <= 5 * (flap_fraction - 100_000_000) < 3 * (lost + 1)
        },
{
}

/// The pressure of the air is half its density times the square of its speed, and on an
/// area in proportion to it.
pub proof fn pressure_grows_with_the_square_of_the_speed(
    density: int,
    vx: int,
    vy: int,
    area: int,
)
    ensures
        ({
            let pressure = pressure_force(density, vx, vy, ONE as int);
            let force = pressure_force(density, vx, vy, area);
            let square = 2_000_000_000_000_000_000int;
            &&& pressure * square <= density * (vx * vx + vy * vy) < (pressure + 1) * square
            &&& force * ONE <= pressure * area < (force + 1) * ONE
        }),
{
}

/// Drag points with the flow and lift square to it, a quarter turn from the flow toward
/// minus the chord's y where the flow comes along its x: each component is made of the
/// two by the flow's direction, up to rounding.
pub proof fn force_is_drag_along_and_lift_across(
    f: SurfaceForce,
    c: Coefficients,
    density: int,
    vx: int,
    vy: int,
    config: AeroSurfaceConfig,
    drag: int,
    lift: int,
)
    requires
        is_force(f, c, density, vx, vy, config),
        root(vx * vx + vy * vy) > 0,
        ({
            let q = pressure_force(
                density,
                vx,
                vy,
                scaled(config.chord as int, config.span as int),
            );
            &&& drag * ONE <= c.drag * q < (drag + 1) * ONE
            &&& lift * ONE <= c.lift * q < (lift + 1) * ONE
        }),
    ensures
        ({
            let speed = root(vx * vx + vy * vy);
            let size = (if drag < 0 {
                -drag
            } else {
                drag
            }) + (if lift < 0 {
                -lift
            } else {
                lift
            });
            let slack = speed * (size + 2 * ONE);
            &&& -slack <= (f.x * speed - drag * vx - lift * vy) * ONE <= slack
            &&& -slack <= (f.y * speed - drag * vy + lift * vx) * ONE <= slack
        }),
{
    let speed = root(vx * vx + vy * vy);
    let one = ONE as int;
    let (ux, uy) = (along(vx, speed), along(vy, speed));
    lemma_quotient(vx * ONE, speed);
    lemma_quotient(vy * ONE, speed);
    lemma_component(drag, lift, ux, uy, vx, vy, speed, f.x as int, scaled(drag, ux) * one, scaled(
        lift,
        uy,
    ) * one);
    assert((-lift) * ux == -(lift * ux)) by (nonlinear_arith);
    lemma_component(drag, -lift, uy, ux, vy, vx, speed, f.y as int, scaled(drag, uy) * one, -(scaled(
        lift,
        ux,
    ) * one));
    assert((-lift) * vx == -(lift * vx)) by (nonlinear_arith);
}

proof fn lemma_component(
    d: int,
    l: int,
    p: int,
    q: int,
    x: int,
    y: int,
    speed: int,
    f: int,
    a: int,
    b: int,
)
    requires
        speed > 0,
        p * speed <= x * ONE < (p + 1) * speed,
        q * speed <= y * ONE < (q + 1) * speed,
        -ONE <= a - d * p <= ONE,
        -ONE <= b - l * q <= ONE,
        f * ONE == a + b,
    ensures
        ({
            let size = (if d < 0 {
                -d
            } else {
                d
            }) + (if l < 0 {
                -l
            } else {
                l
            });
            let slack = speed * (size + 2 * ONE);
            -slack <= (f * speed - d * x - l * y) * ONE <= slack
        }),
{
    let one = ONE as int;
    let (r, t) = (x * one - p * speed, y * one - q * speed);
    assert(0 <= r < speed && 0 <= t < speed) by (nonlinear_arith)
        requires
            r == x * one - p * speed,
            t == y * one - q * speed,
            p * speed <= x * one,
            x * one < (p + 1) * speed,
            q * speed <= y * one,
            y * one < (q + 1) * speed,
    ;
    let e = a + b - d * p - l * q;
    assert((f * speed - d * x - l * y) * one == e * speed - d * r - l * t) by {
        let (u, v, w) = (f * speed, d * x, l * y);
        assert((u - v - w) * one == u * one - v * one - w * one) by (nonlinear_arith);
        assert((f * one) * speed == (f * speed) * one) by (nonlinear_arith);
        assert(d * (x * one) == (d * x) * one) by (nonlinear_arith);
        assert(l * (y * one) == (l * y) * one) by (nonlinear_arith);
        assert((a + b) * speed == e * speed + d * (p * speed) + l * (q * speed))
            by (nonlinear_arith)
            requires
                a + b == e + d * p + l * q,
        ;
        assert(d * (x * one) == d * (p * speed) + d * r) by (nonlinear_arith)
            requires
                x * one == p * speed + r,
        ;
        assert(l * (y * one) == l * (q * speed) + l * t) by (nonlinear_arith)
            requires
                y * one == q * speed + t,
        ;
    }
    let m = if d < 0 {
        -d
    } else {
        d
    };
    let n = if l < 0 {
        -l
    } else {
        l
    };
    assert(-(m * speed) <= d * r <= m * speed) by (nonlinear_arith)
        requires
            0 <= r < speed,
            -m <= d <= m,
            m >= 0,
    ;
    assert(-(n * speed) <= l * t <= n * speed) by (nonlinear_arith)
        requires
            0 <= t < speed,
            -n <= l <= n,
            n >= 0,
    ;
    assert(-(2 * one * speed) <= e * speed <= 2 * one * speed) by (nonlinear_arith)
        requires
            -2 * one <= e <= 2 * one,
            speed > 0,
    ;
    assert(speed * (m + n + 2 * one) == m * speed + n * speed + 2 * one * speed)
        by (nonlinear_arith);
}

/// The moment is the coefficient's, on the pressure over the area times the chord, and a
/// nose-down coefficient turns the other way about the span.
pub proof fn moment_grows_with_the_chord(
    f: SurfaceForce,
    c: Coefficients,
    density: int,
    vx: int,
    vy: int,
    config: AeroSurfaceConfig,
)
    requires
        is_force(f, c, density, vx, vy, config),
        root(vx * vx + vy * vy) > 0,
        config.chord >= 0,
    ensures
        ({
            let area = scaled(config.chord as int, config.span as int);
            let whole = c.moment * pressure_force(density, vx, vy, area) * config.chord;
            &&& -f.moment * ONE * ONE <= whole
            &&& whole < (1 - f.moment) * ONE * ONE + ONE * config.chord
        }),
{
    let area = scaled(config.chord as int, config.span as int);
    chain_of_products(
        c.moment as int,
        pressure_force(density, vx, vy, area),
        config.chord as int,
    );
}

/// The ground's help is its strength times how near the ground is.
pub proof fn ground_helps_in_proportion(strength: int, span: int, proximity: int)
    requires
        strength > 0,
        span > 0,
    ensures
        ({
            let help = ground_effect(strength, span, proximity) - ONE;
            help * ONE <= strength * proximity < (help + 1) * ONE
        }),
{
}

}
