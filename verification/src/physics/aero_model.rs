//! The aerodynamic model of a surface: how aspect ratio and flaps shift its lift
//! curve, how it stalls, and the force that follows.
//!
//! Angles are in nanoradians unless said otherwise, coefficients, lengths and
//! forces have nine decimals. Sines, cosines and the like are handed in.

use super::aero_surface::{
    flow_regime, lift_coeff_max_fraction, max_lift_share, regime_of, AeroSurface, FlowRegime,
    MAX_DEFLECTION,
};
use super::aero_surface_config::AeroSurfaceConfig;
use crate::angle::{degrees, radians, to_degrees, to_radians};
use crate::fixed::{clamp, clamped, floor_div, is_root, root, scaled, sqrt_floor, ONE};
use crate::terrain::runway::HALF_TURN;
use vstd::prelude::*;

verus! {

/// A quarter turn.
pub const QUARTER_TURN: i64 = 1_570_796_327;

impl AeroSurfaceConfig {
    /// The surface stalls within 45 degrees of the angle of no lift, either way.
    pub open spec fn stalls_early(self) -> bool {
        &&& -45_000_000_000 <= self.stall_angle_high - self.zero_lift_aoa <= 45_000_000_000
        &&& -45_000_000_000 <= self.stall_angle_low - self.zero_lift_aoa <= 45_000_000_000
    }

    /// The surface is of a size and shape that the model covers: with its flaps fully
    /// out it still stalls before the flow is square to it, where the model's quotients
    /// have no meaning.
    pub open spec fn sound(self) -> bool {
        &&& 0 < self.lift_slope <= 10_000_000_000
        &&& 0 <= self.skin_friction <= ONE
        &&& -45_000_000_000 <= self.zero_lift_aoa <= 45_000_000_000
        &&& -45_000_000_000 <= self.stall_angle_high <= 45_000_000_000
        &&& -45_000_000_000 <= self.stall_angle_low <= 45_000_000_000
        &&& 0 < self.chord <= 10_000_000_000
        &&& 0 < self.span <= 10_000_000_000
        &&& 100_000_000 <= self.aspect_ratio <= 100_000_000_000
        &&& self.stalls_early()
    }
}

impl AeroSurface {
    /// Its shape is sound, and it is deflected no further than it can be.
    pub open spec fn sound(self) -> bool {
        &&& self.config.sound()
        &&& -MAX_DEFLECTION <= self.flap_angle <= MAX_DEFLECTION
    }
}

/// An aspect ratio that the model covers, with or without the ground's help.
pub open spec fn is_aspect(aspect: int) -> bool {
    100_000_000 <= aspect <= 10_000_000_000_000
}

proof fn lemma_product(a: int, b: int, x: int, y: int)
    requires
        -x <= a <= x,
        -y <= b <= y,
    ensures
        -(x * y) <= a * b <= x * y,
{
    assert(-(x * y) <= a * b <= x * y) by (nonlinear_arith)
        requires
            -x <= a <= x,
            -y <= b <= y,
    ;
}

fn times(a: i128, b: i128) -> (r: i128)
    requires
        -160_000_000_000_000_000_000_000_000_000_000_000_000 <= a * b
            <= 160_000_000_000_000_000_000_000_000_000_000_000_000,
    ensures
        r == scaled(a as int, b as int),
{
    floor_div(a * b, 1_000_000_000)
}

/// What the finite span leaves of the lift slope.
pub open spec fn corrected_slope(slope: int, aspect: int) -> int {
    (slope * aspect) / slope_divisor(aspect)
}

/// The aspect ratio plus the correction for the finite span.
pub open spec fn slope_divisor(aspect: int) -> int {
    aspect + (2 * (aspect + 4 * ONE) * ONE) / (aspect + 2 * ONE)
}

proof fn lemma_divisor(aspect: int)
    requires
        aspect >= 0,
    ensures
        slope_divisor(aspect) >= aspect + 2 * ONE,
        slope_divisor(aspect) <= aspect + 4 * ONE,
{
    let n = 2 * (aspect + 4 * ONE) * ONE;
    let d = aspect + 2 * ONE;
    vstd::arithmetic::div_mod::lemma_fundamental_div_mod(n, d);
    let q = n / d;
    let r = n % d;
    assert(2_000_000_000 <= q <= 4_000_000_000) by (nonlinear_arith)
        requires
            n == d * q + r,
            0 <= r < d,
            n == 2_000_000_000 * d + 4_000_000_000_000_000_000,
            d >= 2_000_000_000,
    ;
}

proof fn lemma_slope_bound(slope: int, aspect: int)
    requires
        0 <= slope,
        0 < aspect,
    ensures
        0 <= corrected_slope(slope, aspect) <= slope,
{
    lemma_divisor(aspect);
    let n = slope * aspect;
    let d = slope_divisor(aspect);
    vstd::arithmetic::div_mod::lemma_fundamental_div_mod(n, d);
    let q = n / d;
    let r = n % d;
    assert(0 <= q <= slope) by (nonlinear_arith)
        requires
            n == slope * aspect,
            n == d * q + r,
            0 <= r < d,
            d >= aspect,
            aspect > 0,
            slope >= 0,
    ;
}

/// The lift slope never exceeds that of an endless wing, and a larger aspect
/// ratio never lowers it: near the ground, where the effective aspect ratio
/// rises, a surface lifts at least as much.
pub proof fn ground_effect_raises_lift(slope: int, aspect: int, raised: int)
    requires
        0 <= slope,
        0 < aspect <= raised,
    ensures
        0 <= corrected_slope(slope, aspect) <= corrected_slope(slope, raised) <= slope,
{
    lemma_slope_bound(slope, aspect);
    lemma_slope_bound(slope, raised);
    lemma_divisor(aspect);
    lemma_divisor(raised);
    let d1 = slope_divisor(aspect);
    let d2 = slope_divisor(raised);
    let e1 = d1 - aspect;
    let e2 = d2 - raised;
    lemma_correction_falls(aspect, raised);
    assert(aspect * d2 <= raised * d1) by (nonlinear_arith)
        requires
            d1 == aspect + e1,
            d2 == raised + e2,
            0 < aspect <= raised,
            0 <= e2 <= e1,
    ;
    let x = slope * aspect;
    let y = slope * raised;
    assert(x * d2 <= y * d1) by (nonlinear_arith)
        requires
            x == slope * aspect,
            y == slope * raised,
            aspect * d2 <= raised * d1,
            slope >= 0,
    ;
    vstd::arithmetic::div_mod::lemma_fundamental_div_mod(x, d1);
    vstd::arithmetic::div_mod::lemma_fundamental_div_mod(y, d2);
    let q1 = x / d1;
    let q2 = y / d2;
    let r1 = x % d1;
    let r2 = y % d2;
    assert(q1 <= q2) by (nonlinear_arith)
        requires
            x == d1 * q1 + r1,
            y == d2 * q2 + r2,
            0 <= r1,
            0 <= r2 < d2,
            x * d2 <= y * d1,
            d1 > 0,
            d2 > 0,
    ;
}

proof fn lemma_correction_falls(aspect: int, raised: int)
    requires
        0 < aspect <= raised,
    ensures
        slope_divisor(raised) - raised <= slope_divisor(aspect) - aspect,
{
    let n1 = 2 * (aspect + 4 * ONE) * ONE;
    let n2 = 2 * (raised + 4 * ONE) * ONE;
    let d1 = aspect + 2 * ONE;
    let d2 = raised + 2 * ONE;
    vstd::arithmetic::div_mod::lemma_fundamental_div_mod(n1, d1);
    vstd::arithmetic::div_mod::lemma_fundamental_div_mod(n2, d2);
    let q1 = n1 / d1;
    let q2 = n2 / d2;
    let r1 = n1 % d1;
    let r2 = n2 % d2;
    assert(q2 <= q1) by (nonlinear_arith)
        requires
            n1 == d1 * q1 + r1,
            n2 == d2 * q2 + r2,
            0 <= r1 < d1,
            0 <= r2,
            n1 == 2_000_000_000 * d1 + 4_000_000_000_000_000_000,
            n2 == 2_000_000_000 * d2 + 4_000_000_000_000_000_000,
            0 < d1 <= d2,
    ;
}

/// How much of its full effect a flap keeps at a deflection: 0.88 undeflected,
/// less the further it goes.
pub open spec fn flap_correction(angle: int) -> int {
    let size = if angle < 0 {
        -angle
    } else {
        angle
    };
    800_000_000 - (8 * (degrees(size) - 10_000_000_000)) / 1000
}

/// How far the flap moves the lift curve.
pub open spec fn flap_shift(angle: int, effectiveness: int) -> int {
    scaled(scaled(effectiveness, flap_correction(angle)), angle)
}

/// The lift curve of a surface as it is deflected: its slope, the angle of no
/// lift, and the angles at which stall begins and has fully set in.
#[derive(Clone, Copy, Debug, PartialEq, Eq, Structural)]
pub struct Polar {
    pub slope: i64,
    pub zero_lift: i64,
    pub stall_high: i64,
    pub stall_low: i64,
    pub padded_high: i64,
    pub padded_low: i64,
}

/// Where a stall angle, in degrees, is once the flap has moved the lift curve;
/// large flaps raise the lift at the stall less.
pub open spec fn stall_at(base: int, shift: int, share: int) -> int {
    radians(base) - shift + scaled(shift, share)
}

/// How far past the upper stall angle the stall has fully set in.
pub open spec fn padding_high(angle: int) -> int {
    radians(15_000_000_000 - (degrees(angle) + 50_000_000_000) / 10)
}

/// How far past the lower stall angle the stall has fully set in.
pub open spec fn padding_low(angle: int) -> int {
    radians(15_000_000_000 - (50_000_000_000 - degrees(angle)) / 10)
}

/// The polar of a surface with the given flap effectiveness and aspect ratio.
pub open spec fn is_polar(p: Polar, s: AeroSurface, effectiveness: int, aspect: int) -> bool {
    let c = s.config;
    let angle = s.flap_angle as int;
    let shift = flap_shift(angle, effectiveness);
    let share = max_lift_share(c.flap_fraction as int);
    &&& p.slope == corrected_slope(c.lift_slope as int, aspect)
    &&& p.zero_lift == radians(c.zero_lift_aoa as int) - shift
    &&& p.stall_high == stall_at(c.stall_angle_high as int, shift, share)
    &&& p.stall_low == stall_at(c.stall_angle_low as int, shift, share)
    &&& p.padded_high == p.stall_high + padding_high(angle)
    &&& p.padded_low == p.stall_low - padding_low(angle)
}

/// The polar's angles are such as deflected surfaces have.
pub open spec fn polar_in_range(p: Polar) -> bool {
    &&& 0 <= p.slope <= 10_000_000_000
    &&& -1_570_000_000 <= p.zero_lift <= 1_570_000_000
    &&& -1_570_000_000 <= p.stall_high <= 1_570_000_000
    &&& -1_570_000_000 <= p.stall_low <= 1_570_000_000
    &&& p.stall_high + 80_000_000 <= p.padded_high <= p.stall_high + 300_000_000
    &&& p.stall_low - 300_000_000 <= p.padded_low <= p.stall_low - 80_000_000
    &&& stalls_before_square(p)
}

/// How far from square to the surface the flow still is when the stall begins.
pub const SQUARE_MARGIN: i64 = 16_000_000;

/// The stall begins clearly less than a quarter turn from the angle of no lift.
pub open spec fn stalls_before_square(p: Polar) -> bool {
    let most = QUARTER_TURN - SQUARE_MARGIN;
    &&& -most <= p.stall_high - p.zero_lift <= most
    &&& -most <= p.stall_low - p.zero_lift <= most
}

/// The polar of a surface. `effectiveness` is the share of the chord's turning
/// that the flap's hinge position gives.
pub fn polar(s: &AeroSurface, effectiveness: i64, aspect: i64) -> (p: Polar)
    requires
        s.sound(),
        0 <= effectiveness <= ONE,
        is_aspect(aspect as int),
    ensures
        is_polar(p, *s, effectiveness as int, aspect as int),
        polar_in_range(p),
{
    let c: AeroSurfaceConfig = s.config;
    let ar: i128 = aspect as i128;
    proof {
        lemma_divisor(aspect as int);
        lemma_slope_bound(c.lift_slope as int, aspect as int);
        lemma_product(
            c.lift_slope as int,
            aspect as int,
            10_000_000_000,
            10_000_000_000_000,
        );
    }
    let divisor: i128 = ar + floor_div(
        2 * (ar + 4_000_000_000) * 1_000_000_000,
        ar + 2_000_000_000,
    );
    let slope: i64 = floor_div(c.lift_slope as i128 * ar, divisor) as i64;
    let angle: i64 = s.flap_angle;
    let size: i64 = if angle < 0 {
        -angle
    } else {
        angle
    };
    let correction: i128 = 800_000_000 - floor_div(8 * (to_degrees(size) - 10_000_000_000), 1000);
    assert(0 <= degrees(size as int) <= 50_000_000_001);
    assert(479_000_000 <= correction <= 881_000_000);
    proof {
        lemma_product(effectiveness as int, correction as int, 1_000_000_000, 881_000_000);
        assert(0 <= effectiveness * correction) by (nonlinear_arith)
            requires
                0 <= effectiveness,
                0 <= correction,
        ;
    }
    let kept: i128 = times(effectiveness as i128, correction);
    assert(0 <= kept <= 881_000_000);
    proof {
        lemma_product(kept as int, angle as int, 881_000_000, 872_664_626);
    }
    let shift: i128 = times(kept, angle as i128);
    assert(-769_000_000 <= shift <= 769_000_000);
    let share: i64 = lift_coeff_max_fraction(c.flap_fraction);
    proof {
        crate::fixed::blend_stays_between(0, shift as int, share as int);
    }
    assert(-769_000_000 * 1_000_000_000 <= shift * share <= 769_000_000 * 1_000_000_000) by {
        lemma_product(shift as int, share as int, 769_000_000, 1_000_000_000);
    }
    let raised: i128 = times(shift, share as i128);
    let zero_lift: i64 = (to_radians(c.zero_lift_aoa) as i128 - shift) as i64;
    let stall_high: i64 = (to_radians(c.stall_angle_high) as i128 - shift + raised) as i64;
    let stall_low: i64 = (to_radians(c.stall_angle_low) as i128 - shift + raised) as i64;
    let deg: i128 = to_degrees(angle);
    assert(-50_000_000_001 <= deg <= 50_000_000_001);
    let high: i64 = to_radians((15_000_000_000 - floor_div(deg + 50_000_000_000, 10)) as i64);
    let low: i64 = to_radians((15_000_000_000 - floor_div(50_000_000_000 - deg, 10)) as i64);
    Polar {
        slope,
        zero_lift,
        stall_high,
        stall_low,
        padded_high: stall_high + high,
        padded_low: stall_low - low,
    }
}

/// Every surface that the model covers has a polar in range, and stalls before the
/// flow is square to it, however its flap is deflected.
pub proof fn polars_stay_in_range(p: Polar, s: AeroSurface, effectiveness: int, aspect: int)
    requires
        is_polar(p, s, effectiveness, aspect),
        s.sound(),
        0 <= effectiveness <= ONE,
        is_aspect(aspect),
    ensures
        polar_in_range(p),
{
    let angle = s.flap_angle as int;
    let correction = flap_correction(angle);
    assert(479_000_000 <= correction <= 881_000_000);
    lemma_slope_bound(s.config.lift_slope as int, aspect);
    lemma_product(effectiveness, correction, 1_000_000_000, 881_000_000);
    assert(0 <= effectiveness * correction) by (nonlinear_arith)
        requires
            0 <= effectiveness,
            0 <= correction,
    ;
    let kept = scaled(effectiveness, correction);
    assert(0 <= kept <= 881_000_000);
    lemma_product(kept, angle, 881_000_000, 872_664_626);
    let shift = flap_shift(angle, effectiveness);
    assert(-769_000_000 <= shift <= 769_000_000);
    let share = max_lift_share(s.config.flap_fraction as int);
    assert(0 <= share <= ONE);
    crate::fixed::blend_stays_between(0, shift, share);
}

/// Lift while the flow is attached: proportional to the angle from no lift.
pub open spec fn attached_lift(p: Polar, aoa: int) -> int {
    scaled(p.slope as int, aoa - p.zero_lift)
}

/// The angle by which the trailing vortices turn the flow.
pub open spec fn induced_angle(lift: int, aspect: int) -> int {
    (lift * ONE) / scaled(HALF_TURN as int, aspect)
}

/// The angle that counts for the forces while the flow is attached.
pub open spec fn attached_angle(p: Polar, aspect: int, aoa: int) -> int {
    aoa - p.zero_lift - induced_angle(attached_lift(p, aoa), aspect)
}

/// How much of the vortices' turning is left past the stall: all of it at the
/// stall angle, none once the flow is square to the surface.
pub open spec fn induced_share(p: Polar, aoa: int) -> int {
    let held = clamped(aoa, -QUARTER_TURN as int, QUARTER_TURN as int);
    if aoa > p.stall_high {
        ((QUARTER_TURN - held) * ONE) / (QUARTER_TURN - p.stall_high)
    } else {
        ((QUARTER_TURN + held) * ONE) / (QUARTER_TURN + p.stall_low)
    }
}

/// The angle that counts for the forces once the surface has stalled.
pub open spec fn stalled_angle(p: Polar, aspect: int, aoa: int) -> int {
    let edge = if aoa > p.stall_high {
        p.stall_high as int
    } else {
        p.stall_low as int
    };
    aoa - p.zero_lift - scaled(
        induced_angle(attached_lift(p, edge), aspect),
        induced_share(p, aoa),
    )
}

/// The flow over a surface: the lift and the angle that count where it is
/// attached, the angle where it has separated, and in between both, with how far
/// the separation has gone.
#[derive(Clone, Copy, Debug, PartialEq, Eq, Structural)]
pub enum Flow {
    Attached { lift: i64, angle: i64 },
    Stalled { angle: i64 },
    Leaving { lift: i64, angle: i64, stalled_angle: i64, share: i64 },
}

/// The flow at an angle of attack.
pub open spec fn is_flow(f: Flow, p: Polar, aspect: int, aoa: int) -> bool {
    match regime_of(
        aoa,
        p.stall_high as int,
        p.stall_low as int,
        p.padded_high as int,
        p.padded_low as int,
    ) {
        FlowRegime::Attached => {
            &&& f matches Flow::Attached { lift, angle }
            &&& lift == attached_lift(p, aoa)
            &&& angle == attached_angle(p, aspect, aoa)
        },
        FlowRegime::Stalled => {
            &&& f matches Flow::Stalled { angle }
            &&& angle == stalled_angle(p, aspect, aoa)
        },
        FlowRegime::LeavingHigh => {
            &&& f matches Flow::Leaving { lift, angle, stalled_angle: past, share }
            &&& lift == attached_lift(p, p.stall_high as int)
            &&& angle == attached_angle(p, aspect, p.stall_high as int)
            &&& past == stalled_angle(p, aspect, p.padded_high as int)
            &&& share == ((aoa - p.stall_high) * ONE) / (p.padded_high - p.stall_high)
        },
        FlowRegime::LeavingLow => {
            &&& f matches Flow::Leaving { lift, angle, stalled_angle: past, share }
            &&& lift == attached_lift(p, p.stall_low as int)
            &&& angle == attached_angle(p, aspect, p.stall_low as int)
            &&& past == stalled_angle(p, aspect, p.padded_low as int)
            &&& share == ((p.stall_low - aoa) * ONE) / (p.stall_low - p.padded_low)
        },
    }
}

/// The flow's numbers are such as the model gives.
pub open spec fn flow_in_range(f: Flow) -> bool {
    match f {
        Flow::Attached { lift, angle } => {
            &&& -16_000_000_000 <= lift <= 16_000_000_000
            &&& -60_000_000_000 <= angle <= 60_000_000_000
        },
        Flow::Stalled { angle } => -60_000_000_000 <= angle <= 60_000_000_000,
        Flow::Leaving { lift, angle, stalled_angle, share } => {
            &&& -16_000_000_000 <= lift <= 16_000_000_000
            &&& -60_000_000_000 <= angle <= 60_000_000_000
            &&& -60_000_000_000 <= stalled_angle <= 60_000_000_000
            &&& -40_000_000_000 <= share <= ONE
        },
    }
}

fn lift_at(p: &Polar, aoa: i64) -> (lift: i64)
    requires
        polar_in_range(*p),
        -(QUARTER_TURN - SQUARE_MARGIN) <= aoa - p.zero_lift <= QUARTER_TURN - SQUARE_MARGIN,
    ensures
        lift == attached_lift(*p, aoa as int),
        -16_000_000_000 <= lift <= 16_000_000_000,
{
    proof {
        lemma_product(p.slope as int, aoa - p.zero_lift, 10_000_000_000, 1_554_796_327);
    }
    times(p.slope as i128, aoa as i128 - p.zero_lift as i128) as i64
}

fn induced(lift: i64, aspect: i64) -> (angle: i64)
    requires
        -16_000_000_000 <= lift <= 16_000_000_000,
        is_aspect(aspect as int),
    ensures
        angle == induced_angle(lift as int, aspect as int),
        -51_000_000_000 <= angle <= 51_000_000_000,
{
    proof {
        lemma_product(HALF_TURN as int, aspect as int, HALF_TURN as int, 10_000_000_000_000);
    }
    let d: i128 = times(HALF_TURN as i128, aspect as i128);
    assert(d >= 314_159_265);
    let n: i128 = lift as i128 * 1_000_000_000;
    let q: i128 = floor_div(n, d);
    proof {
        vstd::arithmetic::div_mod::lemma_fundamental_div_mod(n as int, d as int);
        let r = n as int % d as int;
        assert(-51_000_000_000 <= q <= 51_000_000_000) by (nonlinear_arith)
            requires
                n == d * q + r,
                0 <= r < d,
                d >= 314_159_265,
                -16_000_000_000_000_000_000 <= n <= 16_000_000_000_000_000_000,
        ;
    }
    q as i64
}

fn attached_at(p: &Polar, aspect: i64, aoa: i64) -> (r: (i64, i64))
    requires
        polar_in_range(*p),
        is_aspect(aspect as int),
        -(QUARTER_TURN - SQUARE_MARGIN) <= aoa - p.zero_lift <= QUARTER_TURN - SQUARE_MARGIN,
    ensures
        r.0 == attached_lift(*p, aoa as int),
        r.1 == attached_angle(*p, aspect as int, aoa as int),
        -16_000_000_000 <= r.0 <= 16_000_000_000,
        -60_000_000_000 <= r.1 <= 60_000_000_000,
{
    let lift: i64 = lift_at(p, aoa);
    (lift, aoa - p.zero_lift - induced(lift, aspect))
}

fn share_of(n: i64, d: i64) -> (share: i64)
    requires
        -3_200_000_000 <= n <= d,
        80_000_000 <= d || (0 < d && 0 <= n),
    ensures
        share == (n * ONE) / (d as int),
        -40_000_000_000 <= share <= ONE,
        0 <= n ==> 0 <= share,
{
    let q: i128 = floor_div(n as i128 * 1_000_000_000, d as i128);
    proof {
        let m = n * 1_000_000_000;
        vstd::arithmetic::div_mod::lemma_fundamental_div_mod(m, d as int);
        let r = m % (d as int);
        assert(q <= 1_000_000_000 && (0 <= n ==> 0 <= q)) by (nonlinear_arith)
            requires
                m == d * q + r,
                0 <= r < d,
                m == n * 1_000_000_000,
                n <= d,
                0 < d,
        ;
        if n < 0 {
            assert(-40_000_000_000 <= q) by (nonlinear_arith)
                requires
                    m == d * q + r,
                    0 <= r < d,
                    m >= -3_200_000_000_000_000_000,
                    80_000_000 <= d,
            ;
        }
    }
    q as i64
}

fn stalled_at(p: &Polar, aspect: i64, aoa: i64) -> (angle: i64)
    requires
        polar_in_range(*p),
        is_aspect(aspect as int),
        -3_200_000_000 <= aoa <= 3_200_000_000,
        aoa > p.stall_high || aoa <= p.stall_low,
    ensures
        angle == stalled_angle(*p, aspect as int, aoa as int),
        -60_000_000_000 <= angle <= 60_000_000_000,
{
    let edge: i64 = if aoa > p.stall_high {
        p.stall_high
    } else {
        p.stall_low
    };
    let full: i64 = induced(lift_at(p, edge), aspect);
    let held: i64 = clamp(aoa as i128, -QUARTER_TURN, QUARTER_TURN);
    let share: i64 = if aoa > p.stall_high {
        share_of(QUARTER_TURN - held, QUARTER_TURN - p.stall_high)
    } else {
        share_of(QUARTER_TURN + held, QUARTER_TURN + p.stall_low)
    };
    proof {
        lemma_product(full as int, share as int, 51_000_000_000, 1_000_000_000);
        assert(0 <= share);
    }
    let left: i128 = times(full as i128, share as i128);
    (aoa as i128 - p.zero_lift as i128 - left) as i64
}

/// The flow over a surface at an angle of attack.
pub fn flow(p: &Polar, aspect: i64, aoa: i64) -> (f: Flow)
    requires
        polar_in_range(*p),
        is_aspect(aspect as int),
        -3_200_000_000 <= aoa <= 3_200_000_000,
    ensures
        is_flow(f, *p, aspect as int, aoa as int),
        flow_in_range(f),
{
    match flow_regime(aoa, p.stall_high, p.stall_low, p.padded_high, p.padded_low) {
        FlowRegime::Attached => {
            let (lift, angle) = attached_at(p, aspect, aoa);
            Flow::Attached { lift, angle }
        },
        FlowRegime::Stalled => Flow::Stalled { angle: stalled_at(p, aspect, aoa) },
        FlowRegime::LeavingHigh => {
            let (lift, angle) = attached_at(p, aspect, p.stall_high);
            Flow::Leaving {
                lift,
                angle,
                stalled_angle: stalled_at(p, aspect, p.padded_high),
                share: share_of(aoa - p.stall_high, p.padded_high - p.stall_high),
            }
        },
        FlowRegime::LeavingLow => {
            let (lift, angle) = attached_at(p, aspect, p.stall_low);
            Flow::Leaving {
                lift,
                angle,
                stalled_angle: stalled_at(p, aspect, p.padded_low),
                share: share_of(p.stall_low - aoa, p.stall_low - p.padded_low),
            }
        },
    }
}

/// Attached flow lifts nothing at the angle of no lift, and never less at a larger
/// angle.
pub proof fn lift_grows_with_angle(p: Polar, small: int, large: int)
    requires
        0 <= p.slope,
        small <= large,
    ensures
        attached_lift(p, p.zero_lift as int) == 0,
        attached_lift(p, small) <= attached_lift(p, large),
{
    assert(p.slope * 0 == 0);
    let a = small - p.zero_lift;
    let b = large - p.zero_lift;
    assert(p.slope * a <= p.slope * b) by (nonlinear_arith)
        requires
            0 <= p.slope,
            a <= b,
    ;
}

/// Sine and cosine of an angle.
#[derive(Clone, Copy, Debug, PartialEq, Eq, Structural)]
pub struct Turn {
    pub sin: i64,
    pub cos: i64,
}

/// The two are at most one.
pub open spec fn is_turn(t: Turn) -> bool {
    -ONE <= t.sin <= ONE && -ONE <= t.cos <= ONE
}

/// Lift, drag and pitching-moment coefficients.
#[derive(Clone, Copy, Debug, PartialEq, Eq, Structural)]
pub struct Coefficients {
    pub lift: i64,
    pub drag: i64,
    pub moment: i64,
}

/// The quotient of two numbers, rounded toward minus infinity after the divisor is
/// made positive.
pub open spec fn over(n: int, d: int) -> int {
    if d > 0 {
        n / d
    } else {
        (-n) / (-d)
    }
}

/// How far behind the leading edge the normal force acts.
pub open spec fn moment_arm(angle: int) -> int {
    let size = if angle < 0 {
        -angle
    } else {
        angle
    };
    250_000_000 - scaled(175_000_000, ONE - (2 * size * ONE) / (HALF_TURN as int))
}

/// Coefficients of attached flow.
pub open spec fn is_attached(c: Coefficients, lift: int, angle: int, skin: int, t: Turn) -> bool {
    let tangential = scaled(skin, t.cos as int);
    let normal = over((lift + scaled(t.sin as int, tangential)) * ONE, t.cos as int);
    &&& c.lift == lift
    &&& c.drag == scaled(normal, t.sin as int) + scaled(tangential, t.cos as int)
    &&& c.moment == -scaled(normal, moment_arm(angle))
}

/// Drag of the surface square to the flow, less or more as it is deflected.
pub open spec fn friction_at_90(flap_angle: int) -> int {
    1_980_000_000 - scaled(42_600_000, scaled(flap_angle, flap_angle)) + scaled(
        210_000_000,
        flap_angle,
    )
}

/// Coefficients of separated flow; `edge` is what the finite span costs, the
/// exponential of minus seventeen over the aspect ratio.
pub open spec fn is_stalled(
    c: Coefficients,
    angle: int,
    skin: int,
    flap_angle: int,
    edge: int,
    t: Turn,
) -> bool {
    let sine = if t.sin < 0 {
        -t.sin
    } else {
        t.sin as int
    };
    let bluff = 1_000_000_000_000_000_000int / (560_000_000 + scaled(440_000_000, sine));
    let normal = scaled(
        scaled(friction_at_90(flap_angle), t.sin as int),
        bluff - scaled(410_000_000, ONE - edge),
    );
    let tangential = scaled(skin, t.cos as int) / 2;
    &&& c.lift == scaled(normal, t.cos as int) - scaled(tangential, t.sin as int)
    &&& c.drag == scaled(normal, t.sin as int) + scaled(tangential, t.cos as int)
    &&& c.moment == -scaled(normal, moment_arm(angle))
}

fn arm(angle: i64) -> (r: i128)
    requires
        -60_000_000_000 <= angle <= 60_000_000_000,
    ensures
        r == moment_arm(angle as int),
        -1_000_000_000 <= r <= 7_000_000_000,
{
    let size: i64 = if angle < 0 {
        -angle
    } else {
        angle
    };
    let turned: i128 = 2 * (size as i128) * 1_000_000_000 / (HALF_TURN as i128);
    assert(0 <= turned <= 39_000_000_000);
    250_000_000 - times(175_000_000, 1_000_000_000 - turned)
}

fn attached_coefficients(lift: i64, angle: i64, skin: i64, t: Turn) -> (c: Coefficients)
    requires
        -16_000_000_000 <= lift <= 16_000_000_000,
        -60_000_000_000 <= angle <= 60_000_000_000,
        0 <= skin <= ONE,
        is_turn(t),
        t.cos >= 1_000_000 || t.cos <= -1_000_000,
    ensures
        is_attached(c, lift as int, angle as int, skin as int, t),
        unmixed(c),
{
    proof {
        lemma_product(skin as int, t.cos as int, 1_000_000_000, 1_000_000_000);
    }
    let tangential: i128 = times(skin as i128, t.cos as i128);
    proof {
        lemma_product(t.sin as int, tangential as int, 1_000_000_000, 1_000_000_000);
    }
    let n: i128 = (lift as i128 + times(t.sin as i128, tangential)) * 1_000_000_000;
    let normal: i128 = if t.cos > 0 {
        floor_div(n, t.cos as i128)
    } else {
        floor_div(-n, -(t.cos as i128))
    };
    proof {
        let (m, d) = if t.cos > 0 {
            (n as int, t.cos as int)
        } else {
            (-n, -t.cos)
        };
        vstd::arithmetic::div_mod::lemma_fundamental_div_mod(m, d);
        let r = m % d;
        assert(-18_000_000_000_000 <= normal <= 18_000_000_000_000) by (nonlinear_arith)
            requires
                m == d * normal + r,
                0 <= r < d,
                d >= 1_000_000,
                -17_000_000_000_000_000_001 <= m <= 17_000_000_000_000_000_001,
        ;
        lemma_product(normal as int, t.sin as int, 18_000_000_000_000, 1_000_000_000);
        lemma_product(tangential as int, t.cos as int, 1_000_000_000, 1_000_000_000);
    }
    let drag: i128 = times(normal, t.sin as i128) + times(tangential, t.cos as i128);
    let a: i128 = arm(angle);
    proof {
        lemma_product(normal as int, a as int, 18_000_000_000_000, 7_000_000_000);
    }
    let moment: i128 = -times(normal, a);
    Coefficients { lift, drag: drag as i64, moment: moment as i64 }
}

/// Coefficients of one kind of flow.
spec fn unmixed(c: Coefficients) -> bool {
    &&& -20_000_000_000_000 <= c.lift <= 20_000_000_000_000
    &&& -20_000_000_000_000 <= c.drag <= 20_000_000_000_000
    &&& -130_000_000_000_000 <= c.moment <= 130_000_000_000_000
}

/// Coefficients that the forces can be computed from.
pub open spec fn coefficients_in_range(c: Coefficients) -> bool {
    &&& -2_000_000_000_000_000 <= c.lift <= 2_000_000_000_000_000
    &&& -2_000_000_000_000_000 <= c.drag <= 2_000_000_000_000_000
    &&& -12_000_000_000_000_000 <= c.moment <= 12_000_000_000_000_000
}

fn stalled_coefficients(angle: i64, skin: i64, flap_angle: i64, edge: i64, t: Turn) -> (c:
    Coefficients)
    requires
        -60_000_000_000 <= angle <= 60_000_000_000,
        0 <= skin <= ONE,
        -MAX_DEFLECTION <= flap_angle <= MAX_DEFLECTION,
        0 <= edge <= ONE,
        is_turn(t),
    ensures
        is_stalled(c, angle as int, skin as int, flap_angle as int, edge as int, t),
        unmixed(c),
{
    proof {
        lemma_product(flap_angle as int, flap_angle as int, 1_000_000_000, 1_000_000_000);
    }
    let sq: i128 = times(flap_angle as i128, flap_angle as i128);
    let square_on: i128 = 1_980_000_000 - times(42_600_000, sq) + times(
        210_000_000,
        flap_angle as i128,
    );
    assert(-3_000_000_000 <= square_on <= 3_000_000_000);
    let sine: i64 = if t.sin < 0 {
        -t.sin
    } else {
        t.sin
    };
    let base: i128 = 560_000_000 + times(440_000_000, sine as i128);
    assert(560_000_000 <= base <= 1_000_000_000);
    let bluff: i128 = 1_000_000_000_000_000_000 / base;
    proof {
        vstd::arithmetic::div_mod::lemma_fundamental_div_mod(
            1_000_000_000_000_000_000,
            base as int,
        );
        let r = 1_000_000_000_000_000_000int % (base as int);
        assert(0 <= bluff <= 2_000_000_000) by (nonlinear_arith)
            requires
                1_000_000_000_000_000_000 == base * bluff + r,
                0 <= r < base,
                560_000_000 <= base,
        ;
        lemma_product(square_on as int, t.sin as int, 3_000_000_000, 1_000_000_000);
    }
    let push: i128 = times(square_on, t.sin as i128);
    let shape: i128 = bluff - times(410_000_000, 1_000_000_000 - edge as i128);
    assert(-3_000_000_000 <= shape <= 3_000_000_000);
    proof {
        lemma_product(push as int, shape as int, 3_000_000_001, 3_000_000_000);
    }
    let normal: i128 = times(push, shape);
    assert(-10_000_000_000 <= normal <= 10_000_000_000);
    proof {
        lemma_product(skin as int, t.cos as int, 1_000_000_000, 1_000_000_000);
    }
    let tangential: i128 = floor_div(times(skin as i128, t.cos as i128), 2);
    proof {
        lemma_product(normal as int, t.cos as int, 10_000_000_000, 1_000_000_000);
        lemma_product(normal as int, t.sin as int, 10_000_000_000, 1_000_000_000);
        lemma_product(tangential as int, t.cos as int, 1_000_000_000, 1_000_000_000);
        lemma_product(tangential as int, t.sin as int, 1_000_000_000, 1_000_000_000);
    }
    let lift: i128 = times(normal, t.cos as i128) - times(tangential, t.sin as i128);
    let drag: i128 = times(normal, t.sin as i128) + times(tangential, t.cos as i128);
    let a: i128 = arm(angle);
    proof {
        lemma_product(normal as int, a as int, 10_000_000_000, 7_000_000_000);
    }
    Coefficients { lift: lift as i64, drag: drag as i64, moment: (-times(normal, a)) as i64 }
}

/// A coefficient on the way from attached to separated flow.
pub open spec fn between(attached: int, stalled: int, share: int) -> int {
    attached + scaled(stalled - attached, share)
}

fn mixed(attached: i64, stalled: i64, share: i64, most: Ghost<int>) -> (r: i64)
    requires
        -most@ <= attached <= most@,
        -most@ <= stalled <= most@,
        most@ <= 130_000_000_000_000,
        -40_000_000_000 <= share <= ONE,
    ensures
        r == between(attached as int, stalled as int, share as int),
        -(81 * most@) - 1 <= r <= 81 * most@ + 1,
{
    proof {
        lemma_product(stalled - attached, share as int, 2 * most@, 40_000_000_000);
        assert((2 * most@) * 40_000_000_000 == 80 * most@ * 1_000_000_000) by (nonlinear_arith);
    }
    (attached as i128 + times(stalled as i128 - attached as i128, share as i128)) as i64
}

/// Coefficients between the two, each on its way.
pub open spec fn is_blend(c: Coefficients, a: Coefficients, b: Coefficients, share: int) -> bool {
    &&& c.lift == between(a.lift as int, b.lift as int, share)
    &&& c.drag == between(a.drag as int, b.drag as int, share)
    &&& c.moment == between(a.moment as int, b.moment as int, share)
}

/// Coefficients of a flow over a surface. `turn` is of the angle that counts,
/// `past` of the separated flow's where the flow is in between.
pub open spec fn is_coefficients(
    c: Coefficients,
    f: Flow,
    s: AeroSurface,
    edge: int,
    turn: Turn,
    past: Turn,
) -> bool {
    let skin = s.config.skin_friction as int;
    let flap = s.flap_angle as int;
    match f {
        Flow::Attached { lift, angle } => is_attached(c, lift as int, angle as int, skin, turn),
        Flow::Stalled { angle } => is_stalled(c, angle as int, skin, flap, edge, turn),
        Flow::Leaving { lift, angle, stalled_angle, share } => exists|
            a: Coefficients,
            b: Coefficients,
        |
            {
                &&& #[trigger] is_attached(a, lift as int, angle as int, skin, turn)
                &&& #[trigger] is_stalled(b, stalled_angle as int, skin, flap, edge, past)
                &&& is_blend(c, a, b, share as int)
            },
    }
}

/// The attached part of a flow is not square to the surface: its cosine is at least a
/// thousandth. That of attached flow over a surface that the model covers is.
pub open spec fn keeps_off_square(f: Flow, turn: Turn) -> bool {
    f is Stalled || turn.cos >= 1_000_000 || turn.cos <= -1_000_000
}

impl AeroSurface {
    /// Lift, drag and moment coefficients of a flow over the surface.
    pub fn calculate_coefficients(&self, f: &Flow, edge: i64, turn: Turn, past: Turn) -> (c:
        Coefficients)
        requires
            flow_in_range(*f),
            self.sound(),
            0 <= edge <= ONE,
            is_turn(turn),
            is_turn(past),
            keeps_off_square(*f, turn),
        ensures
            is_coefficients(c, *f, *self, edge as int, turn, past),
            coefficients_in_range(c),
    {
        let skin: i64 = self.config.skin_friction;
        match *f {
            Flow::Attached { lift, angle } => attached_coefficients(lift, angle, skin, turn),
            Flow::Stalled { angle } => stalled_coefficients(
                angle,
                skin,
                self.flap_angle,
                edge,
                turn,
            ),
            Flow::Leaving { lift, angle, stalled_angle, share } => {
                let a: Coefficients = attached_coefficients(lift, angle, skin, turn);
                let b: Coefficients = stalled_coefficients(
                    stalled_angle,
                    skin,
                    self.flap_angle,
                    edge,
                    past,
                );
                let c: Coefficients = Coefficients {
                    lift: mixed(a.lift, b.lift, share, Ghost(20_000_000_000_000)),
                    drag: mixed(a.drag, b.drag, share, Ghost(20_000_000_000_000)),
                    moment: mixed(a.moment, b.moment, share, Ghost(130_000_000_000_000)),
                };
                assert(is_blend(c, a, b, share as int));
                c
            },
        }
    }
}

/// The stall has no jump: at the stall angle the blend is the attached flow's
/// coefficients, and at the far end of the transition the separated flow's.
pub proof fn stall_is_continuous(a: Coefficients, b: Coefficients, c: Coefficients, share: int)
    requires
        is_blend(c, a, b, share),
    ensures
        share == 0 ==> c == a,
        share == ONE ==> c == b,
{
    crate::fixed::blend_stays_between(a.lift as int, b.lift as int, clamped(share, 0, ONE as int));
    crate::fixed::blend_stays_between(a.drag as int, b.drag as int, clamped(share, 0, ONE as int));
    crate::fixed::blend_stays_between(
        a.moment as int,
        b.moment as int,
        clamped(share, 0, ONE as int),
    );
}

/// Half the density times the square of the airspeed in the plane of the chord,
/// times the area.
pub open spec fn pressure_force(density: int, vx: int, vy: int, area: int) -> int {
    scaled((density * (vx * vx + vy * vy)) / 2_000_000_000_000_000_000, area)
}

/// The component of a unit vector along the flow.
pub open spec fn along(v: int, speed: int) -> int {
    (v * ONE) / speed
}

/// Force of a flow on a surface, in the plane of its chord (x along the chord, y
/// across it), and the moment about its span: drag along the flow, lift square to
/// it.
#[derive(Clone, Copy, Debug, PartialEq, Eq, Structural)]
pub struct SurfaceForce {
    pub x: i128,
    pub y: i128,
    pub moment: i128,
}

/// The force for given coefficients in air that moves with `(vx, vy)` against the
/// surface.
pub open spec fn is_force(
    f: SurfaceForce,
    c: Coefficients,
    density: int,
    vx: int,
    vy: int,
    config: AeroSurfaceConfig,
) -> bool {
    let speed = root(vx * vx + vy * vy);
    let qa = pressure_force(density, vx, vy, scaled(config.chord as int, config.span as int));
    let drag = scaled(c.drag as int, qa);
    let lift = scaled(c.lift as int, qa);
    if speed == 0 {
        f == (SurfaceForce { x: 0, y: 0, moment: 0 })
    } else {
        &&& f.x == scaled(drag, along(vx, speed)) + scaled(lift, along(vy, speed))
        &&& f.y == scaled(drag, along(vy, speed)) - scaled(lift, along(vx, speed))
        &&& f.moment == -scaled(scaled(c.moment as int, qa), config.chord as int)
    }
}

fn unit(v: i64, speed: i64) -> (r: i128)
    requires
        -10_000_000_000_000 <= v <= 10_000_000_000_000,
        0 < speed,
        -(speed + 1) <= v <= speed + 1,
    ensures
        r == along(v as int, speed as int),
        -2_000_000_000 <= r <= 2_000_000_000,
{
    let q: i128 = floor_div(v as i128 * 1_000_000_000, speed as i128);
    proof {
        let n = v * 1_000_000_000;
        vstd::arithmetic::div_mod::lemma_fundamental_div_mod(n, speed as int);
        let r = n % (speed as int);
        assert(-2_000_000_000 <= q <= 2_000_000_000) by (nonlinear_arith)
            requires
                n == speed * q + r,
                0 <= r < speed,
                -1_000_000_000 * (speed + 1) <= n <= 1_000_000_000 * (speed + 1),
                0 < speed,
        ;
    }
    q
}

/// A surface's force leaves room for what is added up.
pub open spec fn force_in_range(f: SurfaceForce) -> bool {
    &&& -10_000_000_000_000_000_000_000_000_000 <= f.x <= 10_000_000_000_000_000_000_000_000_000
    &&& -10_000_000_000_000_000_000_000_000_000 <= f.y <= 10_000_000_000_000_000_000_000_000_000
    &&& -20_000_000_000_000_000_000_000_000_000 <= f.moment
        <= 20_000_000_000_000_000_000_000_000_000
}

impl AeroSurface {
    /// The force of a flow on a surface: `density` in kg/m^3, air velocity in m/s.
    pub fn calculate_forces(&self, c: &Coefficients, density: i64, vx: i64, vy: i64) -> (f:
        SurfaceForce)
        requires
            coefficients_in_range(*c),
            0 <= density <= 10_000_000_000,
            -10_000_000_000_000 <= vx <= 10_000_000_000_000,
            -10_000_000_000_000 <= vy <= 10_000_000_000_000,
            self.config.sound(),
        ensures
            is_force(f, *c, density as int, vx as int, vy as int, self.config),
            force_in_range(f),
    {
        let config: AeroSurfaceConfig = self.config;
        let x: i128 = vx as i128;
        let y: i128 = vy as i128;
        proof {
            lemma_product(vx as int, vx as int, 10_000_000_000_000, 10_000_000_000_000);
            lemma_product(vy as int, vy as int, 10_000_000_000_000, 10_000_000_000_000);
            assert(x * x >= 0 && y * y >= 0) by (nonlinear_arith);
        }
        let sq: i128 = x * x + y * y;
        let speed: i64 = sqrt_floor(sq);
        if speed == 0 {
            return SurfaceForce { x: 0, y: 0, moment: 0 };
        }
        proof {
            let s = speed as int;
            assert(-(s + 1) <= x <= s + 1) by (nonlinear_arith)
                requires
                    x * x < (s + 1) * (s + 1),
                    0 <= s,
            ;
            assert(-(s + 1) <= y <= s + 1) by (nonlinear_arith)
                requires
                    y * y < (s + 1) * (s + 1),
                    0 <= s,
            ;
            lemma_product(
                density as int,
                sq as int,
                10_000_000_000,
                200_000_000_000_000_000_000_000_000,
            );
            assert(density * sq >= 0) by (nonlinear_arith)
                requires
                    density >= 0,
                    sq >= 0,
            ;
        }
        let q: i128 = density as i128 * sq / 2_000_000_000_000_000_000;
        assert(0 <= q <= 1_000_000_000_000_000_000);
        proof {
            lemma_product(config.chord as int, config.span as int, 10_000_000_000, 10_000_000_000);
            assert(config.chord * config.span >= 0) by (nonlinear_arith)
                requires
                    config.chord >= 0,
                    config.span >= 0,
            ;
        }
        let area: i128 = times(config.chord as i128, config.span as i128);
        assert(0 <= area <= 100_000_000_000);
        proof {
            lemma_product(q as int, area as int, 1_000_000_000_000_000_000, 100_000_000_000);
        }
        let qa: i128 = times(q, area);
        assert(-100_000_000_000_000_000_001 <= qa <= 100_000_000_000_000_000_000);
        proof {
            lemma_product(
                c.drag as int,
                qa as int,
                2_000_000_000_000_000,
                100_000_000_000_000_000_001,
            );
            lemma_product(
                c.lift as int,
                qa as int,
                2_000_000_000_000_000,
                100_000_000_000_000_000_001,
            );
            lemma_product(
                c.moment as int,
                qa as int,
                12_000_000_000_000_000,
                100_000_000_000_000_000_001,
            );
        }
        let drag: i128 = times(c.drag as i128, qa);
        let lift: i128 = times(c.lift as i128, qa);
        let twist: i128 = times(c.moment as i128, qa);
        let ux: i128 = unit(vx, speed);
        let uy: i128 = unit(vy, speed);
        proof {
            let b = 1_300_000_000_000_000_000_000_000_000int;
            lemma_product(drag as int, ux as int, b, 2_000_000_000);
            lemma_product(drag as int, uy as int, b, 2_000_000_000);
            lemma_product(lift as int, ux as int, b, 2_000_000_000);
            lemma_product(lift as int, uy as int, b, 2_000_000_000);
            lemma_product(twist as int, config.chord as int, b, 10_000_000_000);
        }
        SurfaceForce {
            x: times(drag, ux) + times(lift, uy),
            y: times(drag, uy) - times(lift, ux),
            moment: -times(twist, config.chord as i128),
        }
    }
}

/// Still air pushes nothing.
pub proof fn still_air_gives_no_force(
    f: SurfaceForce,
    c: Coefficients,
    density: int,
    config: AeroSurfaceConfig,
)
    requires
        is_force(f, c, density, 0, 0, config),
    ensures
        f == (SurfaceForce { x: 0, y: 0, moment: 0 }),
{
    assert(is_root(0, 0));
    crate::fixed::root_exists(0);
    crate::fixed::root_is_unique(root(0), 0, 0);
}

/// The effective aspect ratio near the ground.
pub open spec fn ground_effect(strength: int, span: int, proximity: int) -> int {
    if strength <= 0 || span <= 0 {
        ONE as int
    } else {
        ONE + scaled(strength, proximity)
    }
}

/// By how much the ground raises the effective aspect ratio: not at all in free air
/// or where the effect is off, up to one plus its strength on the deck. `proximity`
/// falls from one on the ground towards zero with height.
pub fn ground_effect_factor(strength: i64, span: i64, proximity: i64) -> (factor: i128)
    ensures
        factor == ground_effect(strength as int, span as int, proximity as int),
        0 <= proximity <= ONE && strength <= 99 * ONE ==> ONE <= factor <= 100 * ONE,
{
    proof {
        if 0 <= proximity <= ONE {
            ground_effect_is_bounded(strength as int, span as int, proximity as int);
        }
    }
    if strength <= 0 || span <= 0 {
        return 1_000_000_000;
    }
    1_000_000_000 + crate::fixed::scale(strength, proximity)
}

/// The aspect ratio that counts for a surface: its own, raised by the ground's
/// factor.
pub fn effective_aspect(aspect: i64, factor: i128) -> (r: i64)
    requires
        100_000_000 <= aspect <= 100_000_000_000,
        ONE <= factor <= 100 * ONE,
    ensures
        r == scaled(aspect as int, factor as int),
        is_aspect(r as int),
{
    let a: i128 = aspect as i128;
    assert(aspect * 1_000_000_000 <= a * factor <= aspect * 100_000_000_000) by (nonlinear_arith)
        requires
            a == aspect,
            0 <= aspect,
            1_000_000_000 <= factor <= 100_000_000_000,
    ;
    floor_div(a * factor, 1_000_000_000) as i64
}

/// Off the deck the ground helps less: the nearer the ground, the more of its help,
/// none of it in free air and all of it on the deck.
pub proof fn ground_effect_grows_with_proximity(strength: int, span: int, far: int, near: int)
    requires
        far <= near,
    ensures
        ground_effect(strength, span, far) <= ground_effect(strength, span, near),
        ground_effect(strength, span, 0) == ONE,
        strength > 0 && span > 0 ==> ground_effect(strength, span, ONE as int) == ONE + strength,
        strength <= 0 || span <= 0 ==> ground_effect(strength, span, near) == ONE,
{
    if strength > 0 {
        assert(strength * far <= strength * near) by (nonlinear_arith)
            requires
                strength > 0,
                far <= near,
        ;
        assert(strength * 0 == 0);
    }
}

/// Near the ground, where the factor is larger, the aspect ratio that counts is
/// never smaller, and neither is the lift slope that follows from it.
pub proof fn nearer_ground_never_costs_lift(slope: int, aspect: int, less: int, more: int)
    requires
        0 <= slope,
        ONE <= aspect * less,
        0 <= aspect,
        less <= more,
    ensures
        scaled(aspect, less) <= scaled(aspect, more),
        corrected_slope(slope, scaled(aspect, less)) <= corrected_slope(
            slope,
            scaled(aspect, more),
        ),
{
    assert(aspect * less <= aspect * more) by (nonlinear_arith)
        requires
            0 <= aspect,
            less <= more,
    ;
    ground_effect_raises_lift(slope, scaled(aspect, less), scaled(aspect, more));
}

/// The ground only ever helps, at most by its strength.
pub proof fn ground_effect_is_bounded(strength: int, span: int, proximity: int)
    requires
        0 <= proximity <= ONE,
    ensures
        ONE <= ground_effect(strength, span, proximity),
        0 <= strength ==> ground_effect(strength, span, proximity) <= ONE + strength,
{
    if strength > 0 {
        crate::fixed::blend_stays_between(0, strength, proximity);
    }
}

}
