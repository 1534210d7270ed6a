//! Debug arrows over the aircraft: how long they are and when they are drawn.
//! Lengths are in nanometres, forces in nanonewtons, moments in nanonewton
//! metres, speeds in nanometres per second.

use crate::fixed::{floor_div, root_exists, scaled, ONE};
use crate::vector::{
    cross_of, cross_within, length, length_of, length_sq, minus, plus, square, vec3, Triple, Vec3,
    Wide3,
};
use vstd::prelude::*;

verus! {

/// Shows or hides the arrows when their key was pressed.
pub fn toggle_gizmos(visible: &mut bool, pressed: bool)
    ensures
        *final(visible) == (*old(visible) != pressed),
{
    if pressed {
        *visible = !*visible;
    }
}

/// The components are at most a billion units each.
pub open spec fn drawable(v: Vec3) -> bool {
    v.within(1_000_000_000_000_000_000)
}

/// The length of a force's arrow: 0.4 mm to the newton, at most six metres.
pub open spec fn arrow_length(force: int) -> int {
    let l = (force * 4) / 10_000;
    if l < 6_000_000_000 {
        l
    } else {
        6_000_000_000
    }
}

/// The arrow of a force: along it, as long as its strength says; none for no
/// force.
pub open spec fn force_arrow(force: Vec3) -> Vec3 {
    let l = length(force);
    if l == 0 {
        Vec3 { x: 0, y: 0, z: 0 }
    } else {
        Vec3 {
            x: ((force.x * arrow_length(l)) / l) as i64,
            y: ((force.y * arrow_length(l)) / l) as i64,
            z: ((force.z * arrow_length(l)) / l) as i64,
        }
    }
}

fn share_of(component: i64, arrow: i64, length: i64) -> (r: i64)
    requires
        -1_000_000_000_000_000_000 <= component <= 1_000_000_000_000_000_000,
        0 <= arrow <= 6_000_000_000,
        0 < length,
        -(length + 1) <= component <= length + 1,
    ensures
        r == (component * arrow) / (length as int),
{
    let c: i128 = component as i128;
    let a: i128 = arrow as i128;
    assert(-10_000_000_000_000_000_000_000_000_000 <= c * a
        <= 10_000_000_000_000_000_000_000_000_000) by (nonlinear_arith)
        requires
            -1_000_000_000_000_000_000 <= c <= 1_000_000_000_000_000_000,
            0 <= a <= 6_000_000_000,
    ;
    let q: i128 = floor_div(c * a, length as i128);
    proof {
        let l = length as int;
        vstd::arithmetic::div_mod::lemma_fundamental_div_mod((c * a) as int, l);
        let r = (c * a) as int % l;
        assert(-20_000_000_000 <= q <= 20_000_000_000) by (nonlinear_arith)
            requires
                c * a == l * q + r,
                0 <= r < l,
                -(l + 1) <= c <= l + 1,
                0 <= a <= 6_000_000_000,
                0 < l,
        ;
    }
    q as i64
}

proof fn lemma_component_within_length(v: Vec3, l: int)
    requires
        0 <= l,
        length_sq(v) < (l + 1) * (l + 1),
    ensures
        -(l + 1) <= v.x <= l + 1,
        -(l + 1) <= v.y <= l + 1,
        -(l + 1) <= v.z <= l + 1,
{
    let (x, y, z) = (v.x as int, v.y as int, v.z as int);
    assert(x * x >= 0 && y * y >= 0 && z * z >= 0) by (nonlinear_arith);
    assert(-(l + 1) <= x <= l + 1) by (nonlinear_arith)
        requires
            x * x < (l + 1) * (l + 1),
            0 <= l,
    ;
    assert(-(l + 1) <= y <= l + 1) by (nonlinear_arith)
        requires
            y * y < (l + 1) * (l + 1),
            0 <= l,
    ;
    assert(-(l + 1) <= z <= l + 1) by (nonlinear_arith)
        requires
            z * z < (l + 1) * (l + 1),
            0 <= l,
    ;
}

fn arrow_of(force: &Vec3) -> (arrow: Vec3)
    requires
        drawable(*force),
    ensures
        arrow == force_arrow(*force),
{
    let l: i64 = length_of(force);
    if l == 0 {
        return vec3(0, 0, 0);
    }
    proof {
        lemma_component_within_length(*force, l as int);
    }
    let long: i128 = l as i128 * 4 / 10_000;
    let a: i64 = if long < 6_000_000_000 {
        long as i64
    } else {
        6_000_000_000
    };
    vec3(share_of(force.x, a, l), share_of(force.y, a, l), share_of(force.z, a, l))
}

/// The cross product, in squared units.
pub open spec fn cross(a: Vec3, b: Vec3) -> (int, int, int) {
    (a.y * b.z - a.z * b.y, a.z * b.x - a.x * b.z, a.x * b.y - a.y * b.x)
}

/// The point about which the pitching moment does not change with the angle of
/// attack, from the change of force and moment: force crossed with moment over
/// force squared.
pub open spec fn center_offset(force: Vec3, moment: Vec3) -> Vec3 {
    let c = cross(force, moment);
    let n = length_sq(force);
    Vec3 {
        x: ((c.0 * ONE) / n) as i64,
        y: ((c.1 * ONE) / n) as i64,
        z: ((c.2 * ONE) / n) as i64,
    }
}

/// The offset, held within ten metres.
pub open spec fn held_within_ten_metres(v: Vec3) -> Vec3 {
    let l = length(v);
    if l <= 10_000_000_000 {
        v
    } else {
        Vec3 {
            x: ((v.x * 10_000_000_000) / l) as i64,
            y: ((v.y * 10_000_000_000) / l) as i64,
            z: ((v.z * 10_000_000_000) / l) as i64,
        }
    }
}

/// The aerodynamic center is drawn in flight (above 5 m/s) and only where the
/// force answers to the angle of attack (by more than a newton).
pub open spec fn center_shown(speed: int, force: Vec3) -> bool {
    speed > 5 * ONE && length(force) > ONE
}

fn product(a: i64, b: i64) -> (r: i128)
    requires
        -1_000_000_000_000_000_000 <= a <= 1_000_000_000_000_000_000,
        -1_000_000_000_000_000_000 <= b <= 1_000_000_000_000_000_000,
    ensures
        r == a * b,
        -1_000_000_000_000_000_000_000_000_000_000_000_000 <= r
            <= 1_000_000_000_000_000_000_000_000_000_000_000_000,
{
    let x: i128 = a as i128;
    let y: i128 = b as i128;
    assert(-1_000_000_000_000_000_000_000_000_000_000_000_000 <= x * y
        <= 1_000_000_000_000_000_000_000_000_000_000_000_000) by (nonlinear_arith)
        requires
            -1_000_000_000_000_000_000 <= x <= 1_000_000_000_000_000_000,
            -1_000_000_000_000_000_000 <= y <= 1_000_000_000_000_000_000,
    ;
    x * y
}

proof fn lemma_plane_bound(p: int, q: int, r: int, s: int)
    ensures
        (p * s - q * r) * (p * s - q * r) <= (p * p + q * q) * (r * r + s * s),
{
    let (a, b, c, d) = (p * s, q * r, p * r, q * s);
    assert((a - b) * (a - b) == a * a - 2 * (a * b) + b * b) by (nonlinear_arith);
    assert(0 <= (c + d) * (c + d)) by (nonlinear_arith);
    assert((c + d) * (c + d) == c * c + 2 * (c * d) + d * d) by (nonlinear_arith);
    assert(a * b == c * d) by (nonlinear_arith)
        requires
            a == p * s,
            b == q * r,
            c == p * r,
            d == q * s,
    ;
    let (pp, qq, rr, ss) = (p * p, q * q, r * r, s * s);
    assert((pp + qq) * (rr + ss) == pp * rr + pp * ss + qq * rr + qq * ss) by (nonlinear_arith);
    assert((p * p) * (s * s) == (p * s) * (p * s)) by (nonlinear_arith);
    assert((q * q) * (r * r) == (q * r) * (q * r)) by (nonlinear_arith);
    assert((p * p) * (r * r) == (p * r) * (p * r)) by (nonlinear_arith);
    assert((q * q) * (s * s) == (q * s) * (q * s)) by (nonlinear_arith);
}

proof fn lemma_component_bound(p: int, q: int, r: int, s: int, n: int, m: int)
    requires
        p * p + q * q <= n,
        r * r + s * s <= m,
    ensures
        (p * s - q * r) * (p * s - q * r) <= n * m,
{
    lemma_plane_bound(p, q, r, s);
    let x = p * p + q * q;
    let y = r * r + s * s;
    assert(0 <= p * p && 0 <= q * q && 0 <= r * r && 0 <= s * s) by (nonlinear_arith);
    assert(x * y <= n * m) by (nonlinear_arith)
        requires
            0 <= x <= n,
            0 <= y <= m,
    ;
}

/// The cross product is no longer than the product of the lengths.
proof fn lemma_cross_bound(a: Vec3, b: Vec3)
    ensures
        ({
            let c = cross(a, b);
            let m = length_sq(a) * length_sq(b);
            c.0 * c.0 <= m && c.1 * c.1 <= m && c.2 * c.2 <= m
        }),
{
    let (ax, ay, az) = (a.x as int, a.y as int, a.z as int);
    let (bx, by, bz) = (b.x as int, b.y as int, b.z as int);
    assert(0 <= ax * ax && 0 <= ay * ay && 0 <= az * az) by (nonlinear_arith);
    assert(0 <= bx * bx && 0 <= by * by && 0 <= bz * bz) by (nonlinear_arith);
    let n = length_sq(a);
    let m = length_sq(b);
    lemma_component_bound(ay, az, by, bz, n, m);
    lemma_component_bound(az, ax, bz, bx, n, m);
    lemma_component_bound(ax, ay, bx, by, n, m);
}

/// The offset of the center fits where the force answers by more than a newton.
proof fn lemma_offset_bound(c: int, n: int, m: int)
    requires
        c * c <= n * m,
        0 <= m <= 3_000_000_000_000_000_000_000_000_000_000_000_000,
        n >= 1_000_000_000_000_000_000,
    ensures
        -2_000_000_000 * n <= c <= 2_000_000_000 * n,
        -2_000_000_000_000_000_001 <= (c * ONE) / n <= 2_000_000_000_000_000_000,
{
    assert(-2_000_000_000 * n <= c <= 2_000_000_000 * n) by (nonlinear_arith)
        requires
            c * c <= n * m,
            0 <= m <= 3_000_000_000_000_000_000_000_000_000_000_000_000,
            n >= 1_000_000_000_000_000_000,
    ;
    let p = c * ONE;
    vstd::arithmetic::div_mod::lemma_fundamental_div_mod(p, n);
    let q = p / n;
    let r = p % n;
    assert(-2_000_000_000_000_000_001 <= q <= 2_000_000_000_000_000_000) by (nonlinear_arith)
        requires
            p == n * q + r,
            0 <= r < n,
            -2_000_000_000_000_000_000 * n <= p <= 2_000_000_000_000_000_000 * n,
    ;
}

/// Ten to the power of `k`.
spec fn decimal(k: int) -> int
    decreases k,
{
    if k <= 0 {
        1
    } else {
        10 * decimal(k - 1)
    }
}

proof fn lemma_decimals(k: int)
    requires
        0 <= k < 9,
    ensures
        decimal(k + 1) == 10 * decimal(k),
        1 <= decimal(k) <= 100_000_000,
        k == 8 ==> decimal(9) == ONE,
{
    reveal_with_fuel(decimal, 10);
}

/// A quotient with nine decimals, found a decimal at a time.
fn quotient(c: i128, n: i128) -> (r: i64)
    requires
        -2_000_000_000_000_000_000_000_000_000_000_000_000 <= c
            <= 2_000_000_000_000_000_000_000_000_000_000_000_000,
        0 < n <= 3_000_000_000_000_000_000_000_000_000_000_000_000,
        -2_000_000_000 * n <= c <= 2_000_000_000 * n,
        i64::MIN <= (c * ONE) / (n as int) <= i64::MAX,
    ensures
        r == (c * ONE) / (n as int),
{
    let mut q: i128 = floor_div(c, n);
    proof {
        vstd::arithmetic::div_mod::lemma_fundamental_div_mod(c as int, n as int);
        let left = c as int % n as int;
        assert(-2_000_000_000 <= q <= 2_000_000_000) by (nonlinear_arith)
            requires
                c == n * q + left,
                0 <= left < n,
                -2_000_000_000 * n <= c <= 2_000_000_000 * n,
        ;
        assert(n * q == c - left);
    }
    let mut left: i128 = c - n * q;
    let mut k: u32 = 0;
    assert(c * decimal(0) == n * q + left);
    while k < 9
        invariant
            k <= 9,
            0 < n <= 3_000_000_000_000_000_000_000_000_000_000_000_000,
            0 <= left < n,
            c * decimal(k as int) == n * q + left,
            -2_000_000_000 * decimal(k as int) <= q < 2_000_000_001 * decimal(k as int),
        decreases 9 - k,
    {
        let ten: i128 = left * 10;
        let digit: i128 = ten / n;
        let rest: i128 = ten % n;
        proof {
            lemma_decimals(k as int);
            vstd::arithmetic::div_mod::lemma_fundamental_div_mod(ten as int, n as int);
            assert(0 <= digit <= 9) by (nonlinear_arith)
                requires
                    ten == n * digit + rest,
                    0 <= rest < n,
                    0 <= ten < 10 * n,
            ;
            let e = decimal(k as int);
            assert(c * (10 * e) == n * (10 * q + digit) + rest) by (nonlinear_arith)
                requires
                    c * e == n * q + left,
                    ten == n * digit + rest,
                    ten == 10 * left,
            ;
        }
        q = q * 10 + digit;
        left = rest;
        k += 1;
    }
    proof {
        lemma_decimals(8);
        vstd::arithmetic::div_mod::lemma_fundamental_div_mod_converse(
            c * ONE,
            n as int,
            q as int,
            left as int,
        );
        assert(n * q == q * n) by (nonlinear_arith);
    }
    q as i64
}

fn held_component(v: i64, l: i64) -> (r: i64)
    requires
        l > 10_000_000_000,
        -(l + 1) <= v <= l + 1,
    ensures
        r == (v * 10_000_000_000) / (l as int),
{
    let q: i128 = floor_div(v as i128 * 10_000_000_000, l as i128);
    proof {
        let n = l as int;
        let p = v * 10_000_000_000;
        vstd::arithmetic::div_mod::lemma_fundamental_div_mod(p, n);
        let r = p % n;
        assert(-20_000_000_001 <= q <= 20_000_000_000) by (nonlinear_arith)
            requires
                p == n * q + r,
                0 <= r < n,
                -10_000_000_000 * (n + 1) <= p <= 10_000_000_000 * (n + 1),
                n > 10_000_000_000,
        ;
    }
    q as i64
}

/// Where the aerodynamic center is from the center of mass, if it is drawn: from
/// the changes of force and moment for a small change of the angle of attack.
pub fn aerodynamic_center(speed: i64, force: &Vec3, moment: &Vec3) -> (offset: Option<Vec3>)
    requires
        drawable(*force),
        drawable(*moment),
    ensures
        offset == if center_shown(speed as int, *force) {
            Some(held_within_ten_metres(center_offset(*force, *moment)))
        } else {
            None
        },
{
    let strength: i64 = length_of(force);
    if speed <= 5 * ONE || strength <= ONE {
        return None;
    }
    let n: i128 = square(force.x) + square(force.y) + square(force.z);
    let cx: i128 = product(force.y, moment.z) - product(force.z, moment.y);
    let cy: i128 = product(force.z, moment.x) - product(force.x, moment.z);
    let cz: i128 = product(force.x, moment.y) - product(force.y, moment.x);
    proof {
        let s = strength as int;
        assert(s * s >= 1_000_000_000_000_000_000) by (nonlinear_arith)
            requires
                s > 1_000_000_000,
        ;
        lemma_cross_bound(*force, *moment);
        let m = length_sq(*moment);
        lemma_length_bound(*moment);
        lemma_length_bound(*force);
        lemma_offset_bound(cx as int, n as int, m);
        lemma_offset_bound(cy as int, n as int, m);
        lemma_offset_bound(cz as int, n as int, m);
    }
    let raw: Vec3 = vec3(quotient(cx, n), quotient(cy, n), quotient(cz, n));
    let l: i64 = length_of(&raw);
    if l <= 10_000_000_000 {
        return Some(raw);
    }
    proof {
        lemma_component_within_length(raw, l as int);
    }
    Some(vec3(held_component(raw.x, l), held_component(raw.y, l), held_component(raw.z, l)))
}

proof fn lemma_length_bound(v: Vec3)
    requires
        drawable(v),
    ensures
        0 <= length_sq(v) <= 3_000_000_000_000_000_000_000_000_000_000_000_000,
{
    let (x, y, z) = (v.x as int, v.y as int, v.z as int);
    assert(0 <= x * x <= 1_000_000_000_000_000_000_000_000_000_000_000_000)
        by (nonlinear_arith)
        requires
            -1_000_000_000_000_000_000 <= x <= 1_000_000_000_000_000_000,
    ;
    assert(0 <= y * y <= 1_000_000_000_000_000_000_000_000_000_000_000_000)
        by (nonlinear_arith)
        requires
            -1_000_000_000_000_000_000 <= y <= 1_000_000_000_000_000_000,
    ;
    assert(0 <= z * z <= 1_000_000_000_000_000_000_000_000_000_000_000_000)
        by (nonlinear_arith)
        requires
            -1_000_000_000_000_000_000 <= z <= 1_000_000_000_000_000_000,
    ;
}

/// A surface as the freestream loads it, as it is (`base`) and turned a little
/// (`turned`), with its arm from the center of mass.
#[derive(Clone, Copy, Debug, PartialEq, Eq, Structural)]
pub struct Sample {
    pub base: Wide3,
    pub turned: Wide3,
    pub arm: Vec3,
}

/// The forces are such as surfaces give, and the arm is up to a hundred metres.
pub open spec fn samples_a_surface(s: Sample) -> bool {
    &&& s.base.within(30_000_000_000_000_000_000_000_000_000)
    &&& s.turned.within(30_000_000_000_000_000_000_000_000_000)
    &&& s.arm.within(100_000_000_000)
}

/// The forces of all samples together, in the freestream as it is or turned.
pub open spec fn force_sum(samples: Seq<Sample>, turned: bool) -> Triple
    decreases samples.len(),
{
    if samples.len() == 0 {
        (0int, 0int, 0int)
    } else {
        let s = samples.last();
        plus(
            force_sum(samples.drop_last(), turned),
            if turned {
                s.turned.parts()
            } else {
                s.base.parts()
            },
        )
    }
}

/// The moments of all samples together: each force at its arm.
pub open spec fn moment_sum(samples: Seq<Sample>, turned: bool) -> Triple
    decreases samples.len(),
{
    if samples.len() == 0 {
        (0int, 0int, 0int)
    } else {
        let s = samples.last();
        plus(
            moment_sum(samples.drop_last(), turned),
            crate::vector::cross(
                s.arm.parts(),
                if turned {
                    s.turned.parts()
                } else {
                    s.base.parts()
                },
            ),
        )
    }
}

fn added(total: &Wide3, more: &Wide3) -> (r: Wide3)
    requires
        total.within(1_000_000_000_000_000_000_000_000_000_000_000),
        more.within(1_000_000_000_000_000_000_000_000_000_000_000),
    ensures
        r.parts() == plus(total.parts(), more.parts()),
{
    Wide3 { x: total.x + more.x, y: total.y + more.y, z: total.z + more.z }
}

fn taken_from(a: &Wide3, b: &Wide3) -> (r: Wide3)
    requires
        a.within(1_000_000_000_000_000_000_000_000_000_000_000),
        b.within(1_000_000_000_000_000_000_000_000_000_000_000),
    ensures
        r.parts() == minus(a.parts(), b.parts()),
{
    Wide3 { x: a.x - b.x, y: a.y - b.y, z: a.z - b.z }
}

/// How force and moment of all surfaces change as the freestream is turned; an
/// aircraft has at most a hundred surfaces.
pub fn load_change(samples: &Vec<Sample>) -> (change: (Wide3, Wide3))
    requires
        samples@.len() <= 100,
        forall|i: int| 0 <= i < samples@.len() ==> samples_a_surface(#[trigger] samples@[i]),
    ensures
        change.0.parts() == minus(force_sum(samples@, true), force_sum(samples@, false)),
        change.1.parts() == minus(moment_sum(samples@, true), moment_sum(samples@, false)),
{
    let none: Wide3 = Wide3 { x: 0, y: 0, z: 0 };
    let mut f_base: Wide3 = none;
    let mut f_turned: Wide3 = none;
    let mut m_base: Wide3 = none;
    let mut m_turned: Wide3 = none;
    let mut i: usize = 0;
    while i < samples.len()
        invariant
            i <= samples@.len() <= 100,
            forall|k: int| 0 <= k < samples@.len() ==> samples_a_surface(#[trigger] samples@[k]),
            f_base.parts() == force_sum(samples@.take(i as int), false),
            f_turned.parts() == force_sum(samples@.take(i as int), true),
            m_base.parts() == moment_sum(samples@.take(i as int), false),
            m_turned.parts() == moment_sum(samples@.take(i as int), true),
            f_base.within(i * 30_000_000_000_000_000_000_000_000_000),
            f_turned.within(i * 30_000_000_000_000_000_000_000_000_000),
            m_base.within(i * 6_000_000_000_000_000_000_000_000_000_001),
            m_turned.within(i * 6_000_000_000_000_000_000_000_000_000_001),
        decreases samples@.len() - i,
    {
        let s: Sample = samples[i];
        let lever: Wide3 = cross_of(&s.arm, &s.base);
        let swung: Wide3 = cross_of(&s.arm, &s.turned);
        proof {
            let l: int = 30_000_000_000_000_000_000_000_000_000;
            cross_within(s.arm.parts(), s.base.parts(), 100_000_000_000, l);
            cross_within(s.arm.parts(), s.turned.parts(), 100_000_000_000, l);
            assert(samples@.take(i + 1).drop_last() =~= samples@.take(i as int));
            assert(samples@.take(i + 1).last() == s);
        }
        f_base = added(&f_base, &s.base);
        f_turned = added(&f_turned, &s.turned);
        m_base = added(&m_base, &lever);
        m_turned = added(&m_turned, &swung);
        i += 1;
    }
    assert(samples@.take(samples@.len() as int) =~= samples@);
    (taken_from(&f_turned, &f_base), taken_from(&m_turned, &m_base))
}

/// A freestream that is not turned changes nothing.
pub proof fn steady_air_changes_no_load(samples: Seq<Sample>)
    requires
        forall|i: int| 0 <= i < samples.len() ==> (#[trigger] samples[i]).turned == samples[i].base,
    ensures
        force_sum(samples, true) == force_sum(samples, false),
        moment_sum(samples, true) == moment_sum(samples, false),
    decreases samples.len(),
{
    if samples.len() > 0 {
        assert forall|i: int| 0 <= i < samples.drop_last().len() implies (
        #[trigger] samples.drop_last()[i]).turned == samples.drop_last()[i].base by {
            assert(samples.drop_last()[i] == samples[i]);
        }
        steady_air_changes_no_load(samples.drop_last());
        assert(samples[samples.len() - 1] == samples.last());
    }
}

/// A surface as the arrows see it: the force on it, and whether it is a control.
#[derive(Clone, Copy, Debug, PartialEq, Eq, Structural)]
pub struct SurfaceLoad {
    pub force: Vec3,
    pub control: bool,
}

/// What is drawn: the arrow along the flight path (if the aircraft moves), the
/// length of the thrust arrow, an arrow for each surface with whether it is a
/// control, and the aerodynamic center.
#[derive(Debug)]
pub struct AeroGizmos {
    pub velocity: Option<Vec3>,
    pub thrust: i64,
    pub surfaces: Vec<(Vec3, bool)>,
    pub center: Option<Vec3>,
}

/// The length of the thrust arrow: five metres for each 2000 N the lever asks for.
pub open spec fn thrust_arrow(thrust_max: int, throttle: int) -> int {
    scaled(thrust_max, throttle) / 400
}

/// The arrow along the flight path: a fifth of a second of flight, above 0.1 m/s.
pub open spec fn velocity_arrow(velocity: Vec3) -> Option<Vec3> {
    if length(velocity) > 100_000_000 {
        Some(
            Vec3 {
                x: (velocity.x as int / 5) as i64,
                y: (velocity.y as int / 5) as i64,
                z: (velocity.z as int / 5) as i64,
            },
        )
    } else {
        None
    }
}

/// What to draw over the aircraft; nothing while the arrows are hidden.
pub fn draw_aero_gizmos(
    visible: bool,
    velocity: &Vec3,
    thrust_max: i64,
    throttle: i64,
    surfaces: &Vec<SurfaceLoad>,
    force_change: &Vec3,
    moment_change: &Vec3,
) -> (gizmos: Option<AeroGizmos>)
    requires
        drawable(*velocity),
        0 <= throttle <= ONE,
        forall|i: int| 0 <= i < surfaces@.len() ==> drawable((#[trigger] surfaces@[i]).force),
        drawable(*force_change),
        drawable(*moment_change),
    ensures
        gizmos is None <==> !visible,
        gizmos matches Some(g) ==> {
            &&& g.velocity == velocity_arrow(*velocity)
            &&& g.thrust == thrust_arrow(thrust_max as int, throttle as int)
            &&& g.surfaces@ == surfaces@.map_values(
                |s: SurfaceLoad| (force_arrow(s.force), s.control),
            )
            &&& g.center == if center_shown(length(*velocity), *force_change) {
                Some(held_within_ten_metres(center_offset(*force_change, *moment_change)))
            } else {
                None
            }
        },
{
    if !visible {
        return None;
    }
    let speed: i64 = length_of(velocity);
    let along: Option<Vec3> = if speed > 100_000_000 {
        Some(
            vec3(
                floor_div(velocity.x as i128, 5) as i64,
                floor_div(velocity.y as i128, 5) as i64,
                floor_div(velocity.z as i128, 5) as i64,
            ),
        )
    } else {
        None
    };
    let ghost f = |s: SurfaceLoad| (force_arrow(s.force), s.control);
    let mut arrows: Vec<(Vec3, bool)> = Vec::with_capacity(surfaces.len());
    let mut i: usize = 0;
    while i < surfaces.len()
        invariant
            i <= surfaces.len(),
            forall|i: int| 0 <= i < surfaces@.len() ==> drawable((#[trigger] surfaces@[i]).force),
            arrows@.len() == i,
            forall|k: int|
                0 <= k < i ==> #[trigger] arrows@[k] == (
                    force_arrow(surfaces@[k].force),
                    surfaces@[k].control,
                ),
        decreases surfaces.len() - i,
    {
        arrows.push((arrow_of(&surfaces[i].force), surfaces[i].control));
        i = i + 1;
    }
    assert(arrows@ =~= surfaces@.map_values(f));
    let pushed: i128 = crate::fixed::scale(thrust_max, throttle);
    proof {
        let a = thrust_max as int;
        let b = throttle as int;
        assert(-0x8000_0000_0000_0000 * 1_000_000_000 <= a * b <= 0x8000_0000_0000_0000
            * 1_000_000_000) by (nonlinear_arith)
            requires
                -0x8000_0000_0000_0000 <= a <= 0x8000_0000_0000_0000,
                0 <= b <= 1_000_000_000,
        ;
    }
    Some(
        AeroGizmos {
            velocity: along,
            thrust: floor_div(pushed, 400) as i64,
            surfaces: arrows,
            center: aerodynamic_center(speed, force_change, moment_change),
        },
    )
}

/// No surface's arrow is longer than six metres, however hard the pull.
pub proof fn arrows_are_capped(weak: int, strong: int)
    requires
        0 <= weak <= strong,
    ensures
        0 <= arrow_length(weak) <= arrow_length(strong) <= 6_000_000_000,
{
}

/// The length is the whole part of the square root.
proof fn lemma_length(v: Vec3)
    ensures
        0 <= length(v),
        length(v) * length(v) <= length_sq(v),
        length_sq(v) < (length(v) + 1) * (length(v) + 1),
{
    let (x, y, z) = (v.x as int, v.y as int, v.z as int);
    assert(x * x >= 0 && y * y >= 0 && z * z >= 0) by (nonlinear_arith);
    root_exists(length_sq(v));
}

/// A part of a whole as long as `l`, shrunk to `short`.
proof fn lemma_shrunk(part: int, short: int, l: int)
    requires
        0 < l,
        0 <= short <= 10_000_000_000,
        -(l + 1) <= part <= l + 1,
    ensures
        ((part * short) / l) * l <= part * short,
        part * short < ((part * short) / l + 1) * l,
        -20_000_000_001 <= (part * short) / l <= 20_000_000_001,
{
    let n = part * short;
    vstd::arithmetic::div_mod::lemma_fundamental_div_mod(n, l);
    let q = n / l;
    let r = n % l;
    assert(q * l <= n && n < (q + 1) * l) by (nonlinear_arith)
        requires
            n == l * q + r,
            0 <= r < l,
    ;
    assert(-20_000_000_001 * l <= n <= 20_000_000_000 * l) by (nonlinear_arith)
        requires
            n == part * short,
            0 <= short <= 10_000_000_000,
            -(l + 1) <= part <= l + 1,
            1 <= l,
    ;
    assert(-20_000_000_001 <= q <= 20_000_000_001) by (nonlinear_arith)
        requires
            q * l <= n,
            n < (q + 1) * l,
            -20_000_000_001 * l <= n <= 20_000_000_000 * l,
            1 <= l,
    ;
}

/// A component of an arrow of 0.4 mm to the newton.
proof fn lemma_small_arrow(part: int, l: int, short: int, q: int)
    requires
        0 < l,
        0 <= short,
        10_000 * short <= 4 * l < 10_000 * short + 10_000,
        -(l + 1) <= part <= l + 1,
        q * l <= part * short,
        part * short < (q + 1) * l,
    ensures
        4 * part - 30_000 <= 10_000 * q <= 4 * part + 30_000,
{
    assert((q + 1) * l == q * l + l) by (nonlinear_arith);
    assert((4 * part - 30_000) * l <= 10_000 * (q * l) && 10_000 * (q * l) <= (4 * part + 30_000)
        * l) by (nonlinear_arith)
        requires
            1 <= l,
            10_000 * short <= 4 * l < 10_000 * short + 10_000,
            -(l + 1) <= part <= l + 1,
            q * l <= part * short,
            part * short < q * l + l,
    ;
    assert(4 * part - 30_000 <= 10_000 * q <= 4 * part + 30_000) by (nonlinear_arith)
        requires
            (4 * part - 30_000) * l <= 10_000 * (q * l),
            10_000 * (q * l) <= (4 * part + 30_000) * l,
            1 <= l,
    ;
}

/// A force's arrow points where the force does. Up to 15 kN it is 0.4 mm long for
/// each newton, within three nanometres; beyond, it is six metres long.
pub proof fn arrows_point_along_the_force(force: Vec3)
    requires
        drawable(force),
    ensures
        ({
            let a = force_arrow(force);
            let l = length(force);
            &&& l < 15_000_000_000_000 ==> {
                &&& 4 * force.x - 30_000 <= 10_000 * a.x <= 4 * force.x + 30_000
                &&& 4 * force.y - 30_000 <= 10_000 * a.y <= 4 * force.y + 30_000
                &&& 4 * force.z - 30_000 <= 10_000 * a.z <= 4 * force.z + 30_000
            }
            &&& l >= 15_000_000_000_000 ==> {
                &&& a.x * l <= force.x * 6_000_000_000 < (a.x + 1) * l
                &&& a.y * l <= force.y * 6_000_000_000 < (a.y + 1) * l
                &&& a.z * l <= force.z * 6_000_000_000 < (a.z + 1) * l
            }
        }),
{
    let l = length(force);
    lemma_length(force);
    lemma_component_within_length(force, l);
    if l > 0 {
        let short = arrow_length(l);
        lemma_shrunk(force.x as int, short, l);
        lemma_shrunk(force.y as int, short, l);
        lemma_shrunk(force.z as int, short, l);
        let a = force_arrow(force);
        if l < 15_000_000_000_000 {
            lemma_small_arrow(force.x as int, l, short, a.x as int);
            lemma_small_arrow(force.y as int, l, short, a.y as int);
            lemma_small_arrow(force.z as int, l, short, a.z as int);
        }
    }
}

proof fn lemma_part_of_a_centre(c: int, n: int)
    requires
        0 < n,
    ensures
        ((c * ONE) / n) * n <= c * 1_000_000_000,
        c * 1_000_000_000 < ((c * ONE) / n + 1) * n,
{
    let p = c * ONE;
    vstd::arithmetic::div_mod::lemma_fundamental_div_mod(p, n);
    let q = p / n;
    let r = p % n;
    assert(q * n <= p && p < (q + 1) * n) by (nonlinear_arith)
        requires
            p == n * q + r,
            0 <= r < n,
    ;
}

/// Where the aerodynamic center is drawn: times the square of the force, its offset is
/// the force crossed with the moment. So it stands square to both, and twice the
/// moment at the same force is twice as far out.
pub proof fn centre_balances_the_moment(speed: int, force: Vec3, moment: Vec3)
    requires
        drawable(force),
        drawable(moment),
        center_shown(speed, force),
    ensures
        ({
            let o = center_offset(force, moment);
            let n = force.x * force.x + force.y * force.y + force.z * force.z;
            let x = force.y * moment.z - force.z * moment.y;
            let y = force.z * moment.x - force.x * moment.z;
            let z = force.x * moment.y - force.y * moment.x;
            &&& o.x * n <= x * 1_000_000_000 < (o.x + 1) * n
            &&& o.y * n <= y * 1_000_000_000 < (o.y + 1) * n
            &&& o.z * n <= z * 1_000_000_000 < (o.z + 1) * n
        }),
{
    let s = length(force);
    lemma_length(force);
    let n = length_sq(force);
    assert(s * s >= 1_000_000_000_000_000_000) by (nonlinear_arith)
        requires
            s > 1_000_000_000,
    ;
    let c = cross(force, moment);
    lemma_cross_bound(force, moment);
    let m = length_sq(moment);
    lemma_length_bound(moment);
    lemma_offset_bound(c.0, n, m);
    lemma_offset_bound(c.1, n, m);
    lemma_offset_bound(c.2, n, m);
    lemma_part_of_a_centre(c.0, n);
    lemma_part_of_a_centre(c.1, n);
    lemma_part_of_a_centre(c.2, n);
}

/// The aerodynamic center is drawn exactly in flight faster than 5 m/s while the force
/// answers by more than a newton.
pub proof fn centre_is_drawn_in_flight(speed: int, force: Vec3)
    ensures
        center_shown(speed, force) <==> speed > 5_000_000_000 && length_sq(force)
            >= 1_000_000_001 * 1_000_000_001,
{
    let l = length(force);
    lemma_length(force);
    if l > 1_000_000_000 {
        assert(l * l >= 1_000_000_001 * 1_000_000_001) by (nonlinear_arith)
            requires
                l >= 1_000_000_001,
        ;
    } else {
        assert((l + 1) * (l + 1) <= 1_000_000_001 * 1_000_000_001) by (nonlinear_arith)
            requires
                0 <= l <= 1_000_000_000,
        ;
    }
}

/// An offset of up to ten metres stays; one further out is drawn in the same direction,
/// ten metres away.
pub proof fn far_centres_are_drawn_at_ten_metres(v: Vec3)
    ensures
        ({
            let h = held_within_ten_metres(v);
            let l = length(v);
            &&& l <= 10_000_000_000 ==> h == v
            &&& l > 10_000_000_000 ==> {
                &&& h.x * l <= v.x * 10_000_000_000 < (h.x + 1) * l
                &&& h.y * l <= v.y * 10_000_000_000 < (h.y + 1) * l
                &&& h.z * l <= v.z * 10_000_000_000 < (h.z + 1) * l
            }
        }),
{
    let l = length(v);
    lemma_length(v);
    if l > 10_000_000_000 {
        lemma_component_within_length(v, l);
        lemma_shrunk(v.x as int, 10_000_000_000, l);
        lemma_shrunk(v.y as int, 10_000_000_000, l);
        lemma_shrunk(v.z as int, 10_000_000_000, l);
    }
}

/// The thrust arrow is a four-hundredth of a metre long for each newton that the lever
/// asks for of the engine's most.
pub proof fn thrust_arrow_follows_the_lever(thrust_max: int, throttle: int)
    ensures
        ({
            let a = thrust_arrow(thrust_max, throttle);
            a * 400_000_000_000 <= thrust_max * throttle < (a + 1) * 400_000_000_000
        }),
{
    let n = thrust_max * throttle;
    assert(scaled(thrust_max, throttle) == n / 1_000_000_000);
}

/// The arrow along the flight path is five times shorter than the way of a second, and
/// there is one exactly above 0.1 m/s.
pub proof fn path_arrow_is_a_fifth_of_a_second(velocity: Vec3)
    ensures
        velocity_arrow(velocity) is Some <==> length(velocity) > 100_000_000,
        velocity_arrow(velocity) matches Some(a) ==> {
            &&& 5 * a.x <= velocity.x < 5 * a.x + 5
            &&& 5 * a.y <= velocity.y < 5 * a.y + 5
            &&& 5 * a.z <= velocity.z < 5 * a.z + 5
        },
{
}

/// One surface more adds its force, and its arm crossed with its force, to the loads.
pub proof fn one_more_surface_adds_its_load(samples: Seq<Sample>, s: Sample, turned: bool)
    ensures
        ({
            let f = if turned {
                s.turned
            } else {
                s.base
            };
            let before = force_sum(samples, turned);
            let after = force_sum(samples.push(s), turned);
            let arm = moment_sum(samples, turned);
            let lever = moment_sum(samples.push(s), turned);
            let x = s.arm.y * f.z - s.arm.z * f.y;
            let y = s.arm.z * f.x - s.arm.x * f.z;
            let z = s.arm.x * f.y - s.arm.y * f.x;
            &&& after.0 - before.0 == f.x
            &&& after.1 - before.1 == f.y
            &&& after.2 - before.2 == f.z
            &&& (lever.0 - arm.0) * 1_000_000_000 <= x < (lever.0 - arm.0 + 1) * 1_000_000_000
            &&& (lever.1 - arm.1) * 1_000_000_000 <= y < (lever.1 - arm.1 + 1) * 1_000_000_000
            &&& (lever.2 - arm.2) * 1_000_000_000 <= z < (lever.2 - arm.2 + 1) * 1_000_000_000
        }),
        force_sum(Seq::empty(), turned) == (0int, 0int, 0int),
        moment_sum(Seq::empty(), turned) == (0int, 0int, 0int),
{
    assert(samples.push(s).drop_last() == samples);
}

}
