//! The levers of the cockpit: throttle, mixture, flaps and trim.
//!
//! A lever is a vertical rail 90 px high. Pixels, lever values and degrees have
//! nine decimals; pixel coordinates grow downwards.

use crate::angle::{degrees, radians, to_degrees, to_radians};
use crate::fixed::{clamp, clamped, floor_div, scaled, ONE};
use crate::physics::aircraft_physics::AircraftRoot;
use crate::text::{digits_read_back, nearest, push_rounded, rounded_text, ten_to};
use vstd::prelude::*;
use vstd::string::StringExecFns;

verus! {

/// Height of a rail.
pub const RAIL_HEIGHT: i64 = 90_000_000_000;

/// The values at the bottom and at the top of a rail (in either order), and the
/// step to which the lever snaps, if it does.
#[derive(Clone, Copy, Debug, PartialEq, Eq)]
pub struct Rail {
    pub bottom: i64,
    pub top: i64,
    pub step: Option<i64>,
}

impl Rail {
    /// The ends differ and are in reach; a step divides both of them.
    pub open spec fn wf(self) -> bool {
        &&& self.bottom != self.top
        &&& -1_000_000_000_000 <= self.bottom <= 1_000_000_000_000
        &&& -1_000_000_000_000 <= self.top <= 1_000_000_000_000
        &&& match self.step {
            Some(s) => {
                &&& 0 < s <= 1_000_000_000_000
                &&& self.bottom % s == 0
                &&& self.top % s == 0
            },
            None => true,
        }
    }
}

/// How far up the rail the pointer is; beyond the ends counts as at them.
pub open spec fn rail_share(pointer: int, rail_top: int) -> int {
    ONE - clamped((pointer - rail_top) / 90, 0, ONE as int)
}

/// Rounded to the nearest multiple of `step`, halves away from zero.
pub open spec fn snapped(v: int, step: int) -> int {
    if v >= 0 {
        ((2 * v + step) / (2 * step)) * step
    } else {
        -(((-2 * v + step) / (2 * step)) * step)
    }
}

/// The value of a lever held at a share of its rail.
pub open spec fn lever_value(rail: Rail, share: int) -> int {
    let v = rail.bottom + scaled(rail.top - rail.bottom, share);
    match rail.step {
        Some(s) => snapped(v, s as int),
        None => v,
    }
}

/// How far up the rail the handle of a lever with this value is.
pub open spec fn handle_share(rail: Rail, value: int) -> int {
    if rail.top > rail.bottom {
        clamped(((value - rail.bottom) * ONE) / (rail.top - rail.bottom), 0, ONE as int)
    } else {
        clamped(((rail.bottom - value) * ONE) / (rail.bottom - rail.top), 0, ONE as int)
    }
}

/// Where the middle of the handle is: six pixels of rail are left at either end.
pub open spec fn handle_y(rail_top: int, share: int) -> int {
    rail_top + 84_000_000_000 - share * 78
}

proof fn lemma_step_bound(v: int, step: int, lo: int, hi: int)
    requires
        step > 0,
        lo % step == 0,
        hi % step == 0,
        lo <= v <= hi,
    ensures
        lo <= snapped(v, step) <= hi,
        snapped(v, step) % step == 0,
        v % step == 0 ==> snapped(v, step) == v,
{
    let a = lo / step;
    let b = hi / step;
    vstd::arithmetic::div_mod::lemma_fundamental_div_mod(lo, step);
    vstd::arithmetic::div_mod::lemma_fundamental_div_mod(hi, step);
    vstd::arithmetic::div_mod::lemma_fundamental_div_mod(v, step);
    let c = v / step;
    let m = if v >= 0 {
        v
    } else {
        -v
    };
    let p = 2 * m + step;
    let q = p / (2 * step);
    let r = p % (2 * step);
    vstd::arithmetic::div_mod::lemma_fundamental_div_mod(p, 2 * step);
    assert(p == 2 * (step * q) + r) by (nonlinear_arith)
        requires
            p == (2 * step) * q + r,
    ;
    assert(step * a == lo && step * b == hi);
    if v >= 0 {
        assert(a <= q <= b && (v == step * c ==> q == c)) by (nonlinear_arith)
            requires
                2 * v + step == 2 * (step * q) + r,
                0 <= r < 2 * step,
                step > 0,
                step * a <= v <= step * b,
        ;
        assert(step * a <= q * step <= step * b) by (nonlinear_arith)
            requires
                a <= q <= b,
                step > 0,
        ;
        assert(q * step == step * q) by (nonlinear_arith);
        vstd::arithmetic::div_mod::lemma_mod_multiples_basic(q, step);
    } else {
        assert(a <= -q <= b && (v == step * c ==> -q == c)) by (nonlinear_arith)
            requires
                -2 * v + step == 2 * (step * q) + r,
                0 <= r < 2 * step,
                step > 0,
                step * a <= v <= step * b,
        ;
        assert(step * a <= -(q * step) <= step * b) by (nonlinear_arith)
            requires
                a <= -q <= b,
                step > 0,
        ;
        assert((-q) * step == -(q * step)) by (nonlinear_arith);
        assert(step * (-q) == -(q * step)) by (nonlinear_arith);
        vstd::arithmetic::div_mod::lemma_mod_multiples_basic(-q, step);
    }
}

/// A lever never leaves its range: whatever the share of the rail, the value is
/// between the two ends, and a stepped lever rests on a step.
pub proof fn lever_stays_in_range(rail: Rail, share: int)
    requires
        rail.wf(),
        0 <= share <= ONE,
    ensures
        rail.bottom <= rail.top ==> rail.bottom <= lever_value(rail, share) <= rail.top,
        rail.top <= rail.bottom ==> rail.top <= lever_value(rail, share) <= rail.bottom,
        rail.step matches Some(s) ==> lever_value(rail, share) % (s as int) == 0,
{
    crate::fixed::blend_stays_between(rail.bottom as int, rail.top as int, share);
    let v = rail.bottom + scaled(rail.top - rail.bottom, share);
    if let Some(s) = rail.step {
        if rail.bottom <= rail.top {
            lemma_step_bound(v, s as int, rail.bottom as int, rail.top as int);
        } else {
            lemma_step_bound(v, s as int, rail.top as int, rail.bottom as int);
        }
    }
}

/// The ends of the rail give the ends of the range.
pub proof fn rail_ends_give_range_ends(rail: Rail)
    requires
        rail.wf(),
    ensures
        lever_value(rail, 0) == rail.bottom,
        lever_value(rail, ONE as int) == rail.top,
        handle_share(rail, rail.bottom as int) == 0,
        handle_share(rail, rail.top as int) == ONE,
{
    let b = rail.bottom as int;
    let t = rail.top as int;
    crate::fixed::blend_stays_between(b, t, 0);
    crate::fixed::blend_stays_between(b, t, ONE as int);
    if let Some(s) = rail.step {
        if b <= t {
            lemma_step_bound(b, s as int, b, t);
            lemma_step_bound(t, s as int, b, t);
        } else {
            lemma_step_bound(b, s as int, t, b);
            lemma_step_bound(t, s as int, t, b);
        }
    }
    let span = if t > b {
        t - b
    } else {
        b - t
    };
    vstd::arithmetic::div_mod::lemma_div_multiples_vanish(ONE as int, span);
    assert(span * ONE == ONE * span);
    vstd::arithmetic::div_mod::lemma_div_basics(span);
}

/// What a lever is after a frame: its value and where its handle is along the
/// rail.
#[derive(Clone, Copy, Debug, PartialEq, Eq, Structural)]
pub struct Lever {
    pub value: i64,
    pub share: i64,
}

fn snap(v: i128, step: i64) -> (r: i128)
    requires
        -1_000_000_000_000 <= v <= 1_000_000_000_000,
        0 < step <= 1_000_000_000_000,
    ensures
        r == snapped(v as int, step as int),
{
    let m: i128 = if v >= 0 {
        v
    } else {
        -v
    };
    let s: i128 = step as i128;
    let q: i128 = (2 * m + s) / (2 * s);
    proof {
        vstd::arithmetic::div_mod::lemma_fundamental_div_mod((2 * m + s) as int, (2 * s) as int);
        let r = (2 * m + s) as int % (2 * s) as int;
        assert(0 <= q * s <= 2_000_000_000_000) by (nonlinear_arith)
            requires
                2 * m + s == (2 * s) * q + r,
                0 <= r < 2 * s,
                0 <= m <= 1_000_000_000_000,
                0 < s <= 1_000_000_000_000,
        ;
    }
    if v >= 0 {
        q * s
    } else {
        -(q * s)
    }
}

/// A lever for a frame. Where the pointer holds it, its value follows the
/// pointer's height on the rail; else it stays. The handle shows the value.
pub fn lever(rail: &Rail, value: i64, rail_top: i64, pointer: Option<i64>) -> (r: Lever)
    requires
        rail.wf(),
    ensures
        r.value == match pointer {
            Some(y) => lever_value(*rail, rail_share(y as int, rail_top as int)),
            None => value as int,
        },
        r.share == handle_share(*rail, r.value as int),
        pointer is Some ==> if rail.bottom <= rail.top {
            rail.bottom <= r.value <= rail.top
        } else {
            rail.top <= r.value <= rail.bottom
        },
{
    let mut v: i64 = value;
    if let Some(y) = pointer {
        let share: i64 = ONE - clamp(
            floor_div(y as i128 - rail_top as i128, 90),
            0,
            ONE,
        );
        proof {
            lever_stays_in_range(*rail, share as int);
            crate::fixed::blend_stays_between(rail.bottom as int, rail.top as int, share as int);
        }
        let at: i64 = crate::fixed::blend(rail.bottom, rail.top, share);
        v = match rail.step {
            Some(s) => snap(at as i128, s) as i64,
            None => at,
        };
    }
    let along: i128 = if rail.top > rail.bottom {
        floor_div(
            (v as i128 - rail.bottom as i128) * 1_000_000_000,
            rail.top as i128 - rail.bottom as i128,
        )
    } else {
        floor_div(
            (rail.bottom as i128 - v as i128) * 1_000_000_000,
            rail.bottom as i128 - rail.top as i128,
        )
    };
    Lever { value: v, share: clamp(along, 0, ONE) }
}

/// Where the middle of a lever's handle is.
pub fn handle_position(rail_top: i64, share: i64) -> (y: i128)
    ensures
        y == handle_y(rail_top as int, share as int),
{
    rail_top as i128 + 84_000_000_000 - share as i128 * 78
}

/// The rail of throttle and mixture.
pub open spec fn power_rail() -> Rail {
    Rail { bottom: 0, top: ONE, step: None }
}

/// The rail of the flaps, in degrees: retracted at the top, thirty at the bottom,
/// in the notches of ten.
pub open spec fn flap_rail() -> Rail {
    Rail { bottom: 30_000_000_000, top: 0, step: Some(10_000_000_000) }
}

/// The rail of the trim, in degrees: ten either way, in whole degrees.
pub open spec fn trim_rail() -> Rail {
    Rail { bottom: (-10_000_000_000) as i64, top: 10_000_000_000, step: Some(1_000_000_000) }
}

/// Ten degrees in nanoradians.
pub const TRIM_LIMIT: i64 = 174_532_925;

/// A share as a percentage.
pub open spec fn percent_label(share: int) -> Seq<char> {
    rounded_text(share * 100, 0) + "%"@
}

fn percent_text(share: i64) -> (text: String)
    ensures
        text@ == percent_label(share as int),
{
    let mut s: String = String::new();
    push_rounded(&mut s, share as i128 * 100, 0);
    s.append("%");
    assert(s@ =~= percent_label(share as int));
    s
}

/// Throttle and mixture for a frame: each follows the pointer that holds it.
/// Returned are where the handles are and what stands below them.
pub fn draw_throttle_mixture_levers(
    root: &mut AircraftRoot,
    rail_top: i64,
    throttle: Option<i64>,
    mixture: Option<i64>,
) -> (r: ((i64, String), (i64, String)))
    requires
        old(root).wf(),
    ensures
        final(root).wf(),
        final(root).throttle_percent == match throttle {
            Some(y) => lever_value(power_rail(), rail_share(y as int, rail_top as int)),
            None => old(root).throttle_percent as int,
        },
        final(root).mixture == match mixture {
            Some(y) => lever_value(power_rail(), rail_share(y as int, rail_top as int)),
            None => old(root).mixture as int,
        },
        *final(root) == (AircraftRoot {
            throttle_percent: final(root).throttle_percent,
            mixture: final(root).mixture,
            ..*old(root)
        }),
        r.0.0 == handle_share(power_rail(), final(root).throttle_percent as int),
        r.0.1@ == percent_label(r.0.0 as int),
        r.1.0 == handle_share(power_rail(), final(root).mixture as int),
        r.1.1@ == percent_label(r.1.0 as int),
{
    let rail: Rail = Rail { bottom: 0, top: ONE, step: None };
    let t: Lever = lever(&rail, root.throttle_percent, rail_top, throttle);
    let m: Lever = lever(&rail, root.mixture, rail_top, mixture);
    root.throttle_percent = t.value;
    root.mixture = m.value;
    ((t.share, percent_text(t.share)), (m.share, percent_text(m.share)))
}

/// The flap lever for a frame: held, it sets the flaps to the notch nearest the
/// pointer; else they stay. Returned are where the handle is and what stands below
/// it.
pub fn draw_flap_lever(root: &mut AircraftRoot, rail_top: i64, pointer: Option<i64>) -> (r: (
    i64,
    String,
))
    requires
        old(root).wf(),
    ensures
        final(root).wf(),
        *final(root) == (AircraftRoot { flap_target: final(root).flap_target, ..*old(root) }),
        match pointer {
            Some(y) => {
                let deg = lever_value(flap_rail(), rail_share(y as int, rail_top as int));
                &&& final(root).flap_target == radians(deg)
                &&& r.0 == handle_share(flap_rail(), deg)
            },
            None => {
                &&& final(root).flap_target == old(root).flap_target
                &&& r.0 == handle_share(flap_rail(), degrees(old(root).flap_target as int))
            },
        },
        r.1@ == rounded_text(30 * (ONE - r.0), 0) + "°"@,
{
    let rail: Rail = Rail { bottom: 30_000_000_000, top: 0, step: Some(10_000_000_000) };
    let deg: i64 = to_degrees(root.flap_target) as i64;
    let l: Lever = lever(&rail, deg, rail_top, pointer);
    if pointer.is_some() {
        root.flap_target = to_radians(l.value);
    }
    let mut s: String = String::new();
    push_rounded(&mut s, 30 * (ONE as i128 - l.share as i128), 0);
    s.append("°");
    assert(s@ =~= rounded_text(30 * (ONE - l.share), 0) + "°"@);
    (l.share, s)
}

/// The lever knows just the flap notches: up, ten, twenty and thirty degrees.
pub proof fn flap_lever_rests_on_notches(share: int)
    requires
        0 <= share <= ONE,
    ensures
        ({
            let rad = radians(lever_value(flap_rail(), share));
            rad == 0 || rad == 174_532_925 || rad == 349_065_850 || rad == 523_598_776
        }),
{
    lever_stays_in_range(flap_rail(), share);
    let deg = lever_value(flap_rail(), share);
    assert(deg == 0 || deg == 10_000_000_000 || deg == 20_000_000_000 || deg == 30_000_000_000);
}

/// A number with its sign, plus for zero and above.
pub open spec fn signed_text(v: int) -> Seq<char> {
    if v < 0 {
        rounded_text(v, 0)
    } else {
        seq!['+'] + rounded_text(v, 0)
    }
}

/// The trim lever for a frame: held, it sets the trim to the whole degree nearest
/// the pointer; else the trim is only kept within the lever's ten degrees.
/// Returned are where the handle is and what stands below it.
pub fn draw_trim_lever(trim: &mut i64, rail_top: i64, pointer: Option<i64>) -> (r: (i64, String))
    ensures
        match pointer {
            Some(y) => {
                let deg = lever_value(trim_rail(), rail_share(y as int, rail_top as int));
                &&& *final(trim) == radians(deg)
                &&& r.0 == handle_share(trim_rail(), deg)
            },
            None => {
                &&& *final(trim) == clamped(*old(trim) as int, -TRIM_LIMIT as int, TRIM_LIMIT as int)
                &&& r.0 == handle_share(
                    trim_rail(),
                    clamped(degrees(*old(trim) as int), -10_000_000_000, 10_000_000_000),
                )
            },
        },
        -TRIM_LIMIT <= *final(trim) <= TRIM_LIMIT,
        r.1@ == signed_text(20 * r.0 - 10_000_000_000) + "°"@,
{
    let rail: Rail = Rail {
        bottom: -10_000_000_000,
        top: 10_000_000_000,
        step: Some(1_000_000_000),
    };
    let deg: i64 = clamp(to_degrees(*trim), -10_000_000_000, 10_000_000_000);
    let l: Lever = lever(&rail, deg, rail_top, pointer);
    if pointer.is_some() {
        *trim = to_radians(l.value);
    } else {
        *trim = clamp(*trim as i128, -TRIM_LIMIT, TRIM_LIMIT);
    }
    let shown: i128 = 20 * l.share as i128 - 10_000_000_000;
    let mut s: String = String::new();
    if shown >= 0 {
        s.push('+');
    }
    push_rounded(&mut s, shown, 0);
    s.append("°");
    assert(s@ =~= signed_text(shown as int) + "°"@);
    (l.share, s)
}

/// The trim's text has a sign of its own either way: a plus where the number has no minus.
pub proof fn trim_shows_its_sign(v: int)
    ensures
        signed_text(v).len() >= 2,
        v < 0 <==> signed_text(v)[0] == '-',
        v >= 0 <==> signed_text(v)[0] == '+',
        v >= 0 ==> signed_text(v).skip(1) == rounded_text(v, 0),
        v < 0 ==> signed_text(v) == rounded_text(v, 0),
{
    let a: int = if v < 0 {
        -v
    } else {
        v
    };
    digits_read_back(nearest(a, ten_to(9) as int) as nat);
    if v >= 0 {
        assert(signed_text(v).skip(1) == rounded_text(v, 0));
    }
}

}
