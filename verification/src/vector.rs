//! Vectors of fixed-point quantities.

use crate::fixed::{floor_div, root, scaled, sqrt_floor, ONE};
use vstd::prelude::*;

verus! {

/// Three components with nine decimals each.
#[derive(Clone, Copy, Debug, PartialEq, Eq, Structural)]
pub struct Vec3 {
    pub x: i64,
    pub y: i64,
    pub z: i64,
}

/// The vector of three components.
pub fn vec3(x: i64, y: i64, z: i64) -> (v: Vec3)
    ensures
        v == (Vec3 { x, y, z }),
{
    Vec3 { x, y, z }
}

/// Three components with nine decimals each, with room for forces and torques.
#[derive(Clone, Copy, Debug, PartialEq, Eq, Structural)]
pub struct Wide3 {
    pub x: i128,
    pub y: i128,
    pub z: i128,
}

/// The components of a vector as numbers.
pub type Triple = (int, int, int);

impl Vec3 {
    pub open spec fn parts(self) -> Triple {
        (self.x as int, self.y as int, self.z as int)
    }

    /// No component is beyond `limit` either way.
    pub open spec fn within(self, limit: int) -> bool {
        &&& -limit <= self.x <= limit
        &&& -limit <= self.y <= limit
        &&& -limit <= self.z <= limit
    }
}

impl Wide3 {
    pub open spec fn parts(self) -> Triple {
        (self.x as int, self.y as int, self.z as int)
    }

    /// No component is beyond `limit` either way.
    pub open spec fn within(self, limit: int) -> bool {
        &&& -limit <= self.x <= limit
        &&& -limit <= self.y <= limit
        &&& -limit <= self.z <= limit
    }
}

/// The sum of two vectors.
pub open spec fn plus(a: Triple, b: Triple) -> Triple {
    (a.0 + b.0, a.1 + b.1, a.2 + b.2)
}

/// The cross product of two vectors.
pub open spec fn cross(a: Triple, b: Triple) -> Triple {
    (
        (a.1 * b.2 - a.2 * b.1) / (ONE as int),
        (a.2 * b.0 - a.0 * b.2) / (ONE as int),
        (a.0 * b.1 - a.1 * b.0) / (ONE as int),
    )
}

/// The square of a vector's length.
pub open spec fn length_sq(v: Vec3) -> int {
    v.x * v.x + v.y * v.y + v.z * v.z
}

/// A vector's length.
pub open spec fn length(v: Vec3) -> int {
    root(length_sq(v))
}

/// The square of a number of up to five billion.
pub fn square(a: i64) -> (r: i128)
    requires
        -5_000_000_000_000_000_000 <= a <= 5_000_000_000_000_000_000,
    ensures
        r == a * a,
        0 <= r <= 25_000_000_000_000_000_000_000_000_000_000_000_000,
{
    let x: i128 = a as i128;
    assert(0 <= x * x <= 25_000_000_000_000_000_000_000_000_000_000_000_000) by (nonlinear_arith)
        requires
            -5_000_000_000_000_000_000 <= x <= 5_000_000_000_000_000_000,
    ;
    x * x
}

/// A vector's length; components are at most five billion units.
pub fn length_of(v: &Vec3) -> (r: i64)
    requires
        v.within(5_000_000_000_000_000_000),
    ensures
        r == length(*v),
        r * r <= length_sq(*v) < (r + 1) * (r + 1),
        0 <= r,
{
    sqrt_floor(square(v.x) + square(v.y) + square(v.z))
}

/// A product of bounded factors is bounded.
pub proof fn product_within(a: int, b: int, la: int, lb: int)
    requires
        -la <= a <= la,
        -lb <= b <= lb,
    ensures
        -(la * lb) <= a * b <= la * lb,
{
    assert(-(la * lb) <= a * b <= la * lb) by (nonlinear_arith)
        requires
            -la <= a <= la,
            -lb <= b <= lb,
    ;
}

/// The whole units of a number and what is left.
fn parted(v: i128) -> (r: (i128, i128))
    requires
        v > -100_000_000_000_000_000_000_000_000_000_000_000_000,
    ensures
        v == 1_000_000_000 * r.0 + r.1,
        0 <= r.1 < 1_000_000_000,
{
    let whole: i128 = floor_div(v, 1_000_000_000);
    (whole, v - whole * 1_000_000_000)
}

/// A product of a number in whole units and what is left is that of the number.
proof fn lemma_parted(a: int, v: int, whole: int, left: int)
    requires
        v == 1_000_000_000 * whole + left,
    ensures
        a * v == 1_000_000_000 * (a * whole) + a * left,
{
    assert(a * v == 1_000_000_000 * (a * whole) + a * left) by (nonlinear_arith)
        requires
            v == 1_000_000_000 * whole + left,
    ;
}

/// The sum of three products, rounded toward minus infinity to nine decimals. The
/// whole units are multiplied apart, which leaves room for wide vectors.
pub fn mixed(a: &Vec3, v: &Wide3) -> (r: i128)
    requires
        a.within(1_000_000_000_000),
        v.within(40_000_000_000_000_000_000_000_000_000_000_000),
    ensures
        r == (a.x * v.x + a.y * v.y + a.z * v.z) / (ONE as int),
{
    let (hx, lx) = parted(v.x);
    let (hy, ly) = parted(v.y);
    let (hz, lz) = parted(v.z);
    proof {
        let la: int = 1_000_000_000_000;
        let lb: int = 40_000_000_000_000_000_000_000_001;
        product_within(a.x as int, hx as int, la, lb);
        product_within(a.y as int, hy as int, la, lb);
        product_within(a.z as int, hz as int, la, lb);
        product_within(a.x as int, lx as int, la, ONE as int);
        product_within(a.y as int, ly as int, la, ONE as int);
        product_within(a.z as int, lz as int, la, ONE as int);
        lemma_parted(a.x as int, v.x as int, hx as int, lx as int);
        lemma_parted(a.y as int, v.y as int, hy as int, ly as int);
        lemma_parted(a.z as int, v.z as int, hz as int, lz as int);
    }
    let whole: i128 = a.x as i128 * hx + a.y as i128 * hy + a.z as i128 * hz;
    whole + floor_div(a.x as i128 * lx + a.y as i128 * ly + a.z as i128 * lz, 1_000_000_000)
}

/// The difference of two products, rounded toward minus infinity to nine decimals.
fn crossed(a: i64, b: i128, c: i64, d: i128) -> (r: i128)
    requires
        -1_000_000_000_000_000 <= a <= 1_000_000_000_000_000,
        -1_000_000_000_000_000 <= c <= 1_000_000_000_000_000,
        -10_000_000_000_000_000_000_000_000_000_000 <= b
            <= 10_000_000_000_000_000_000_000_000_000_000,
        -10_000_000_000_000_000_000_000_000_000_000 <= d
            <= 10_000_000_000_000_000_000_000_000_000_000,
    ensures
        r == (a * b - c * d) / (ONE as int),
{
    let (hb, lb) = parted(b);
    let (hd, ld) = parted(d);
    proof {
        let la: int = 1_000_000_000_000_000;
        let l: int = 10_000_000_000_000_000_000_001;
        product_within(a as int, hb as int, la, l);
        product_within(c as int, hd as int, la, l);
        product_within(a as int, lb as int, la, ONE as int);
        product_within(c as int, ld as int, la, ONE as int);
        lemma_parted(a as int, b as int, hb as int, lb as int);
        lemma_parted(c as int, d as int, hd as int, ld as int);
    }
    let whole: i128 = a as i128 * hb - c as i128 * hd;
    whole + floor_div(a as i128 * lb - c as i128 * ld, 1_000_000_000)
}

/// The cross product of a lever arm or rate (up to a million units) and a wide
/// vector.
pub fn cross_of(a: &Vec3, b: &Wide3) -> (r: Wide3)
    requires
        a.within(1_000_000_000_000_000),
        b.within(10_000_000_000_000_000_000_000_000_000_000),
    ensures
        r.parts() == cross(a.parts(), b.parts()),
{
    Wide3 {
        x: crossed(a.y, b.z, a.z, b.y),
        y: crossed(a.z, b.x, a.x, b.z),
        z: crossed(a.x, b.y, a.y, b.x),
    }
}

/// A wide vector by a factor of up to one either way.
pub fn part_of(v: &Wide3, factor: i64) -> (r: Wide3)
    requires
        v.within(40_000_000_000_000_000_000_000_000_000_000_000),
        -ONE <= factor <= ONE,
    ensures
        r.parts() == (
            (v.x * factor) / (ONE as int),
            (v.y * factor) / (ONE as int),
            (v.z * factor) / (ONE as int),
        ),
{
    proof {
        assert(factor * v.x == v.x * factor) by (nonlinear_arith);
        assert(factor * v.y == v.y * factor) by (nonlinear_arith);
        assert(factor * v.z == v.z * factor) by (nonlinear_arith);
        assert(0 * v.x == 0 && 0 * v.y == 0 && 0 * v.z == 0);
    }
    Wide3 {
        x: mixed(&vec3(factor, 0, 0), v),
        y: mixed(&vec3(0, factor, 0), v),
        z: mixed(&vec3(0, 0, factor), v),
    }
}

/// The components of a cross product are bounded by those of its factors.
pub proof fn cross_within(a: Triple, b: Triple, la: int, lb: int)
    requires
        -la <= a.0 <= la,
        -la <= a.1 <= la,
        -la <= a.2 <= la,
        -lb <= b.0 <= lb,
        -lb <= b.1 <= lb,
        -lb <= b.2 <= lb,
    ensures
        ({
            let most = (2 * (la * lb)) / (ONE as int) + 1;
            let c = cross(a, b);
            &&& -most <= c.0 <= most
            &&& -most <= c.1 <= most
            &&& -most <= c.2 <= most
        }),
{
    product_within(a.0, b.1, la, lb);
    product_within(a.0, b.2, la, lb);
    product_within(a.1, b.0, la, lb);
    product_within(a.1, b.2, la, lb);
    product_within(a.2, b.0, la, lb);
    product_within(a.2, b.1, la, lb);
}

/// A vector of unit length by a number.
pub open spec fn stretched(direction: Triple, by: int) -> Triple {
    (scaled(direction.0, by), scaled(direction.1, by), scaled(direction.2, by))
}

/// What is left of a vector after another.
pub open spec fn minus(a: Triple, b: Triple) -> Triple {
    (a.0 - b.0, a.1 - b.1, a.2 - b.2)
}

/// A vector at length one; none for no vector.
pub open spec fn unit_of(v: Triple) -> Triple {
    let l = root(v.0 * v.0 + v.1 * v.1 + v.2 * v.2);
    if l == 0 {
        (0int, 0int, 0int)
    } else {
        ((v.0 * ONE) / l, (v.1 * ONE) / l, (v.2 * ONE) / l)
    }
}

/// Stretching a direction is bounded by the direction and the number.
pub proof fn stretching_is_bounded(direction: Triple, by: int, la: int, lb: int)
    requires
        -la <= direction.0 <= la,
        -la <= direction.1 <= la,
        -la <= direction.2 <= la,
        -lb <= by <= lb,
        0 <= la,
        0 <= lb,
    ensures
        ({
            let s = stretched(direction, by);
            let most = (la * lb) / (ONE as int) + 1;
            &&& -most <= s.0 <= most
            &&& -most <= s.1 <= most
            &&& -most <= s.2 <= most
        }),
{
    product_within(direction.0, by, la, lb);
    product_within(direction.1, by, la, lb);
    product_within(direction.2, by, la, lb);
}

fn unit_part(c: i64, l: i64) -> (r: i64)
    requires
        0 < l,
        -(l + 1) <= c <= l + 1,
    ensures
        r == (c * ONE) / (l as int),
        -3_000_000_000 <= r <= 3_000_000_000,
{
    let n: i128 = c as i128 * 1_000_000_000;
    let q: i128 = floor_div(n, l as i128);
    proof {
        let m = n as int;
        let d = l as int;
        vstd::arithmetic::div_mod::lemma_fundamental_div_mod(m, d);
        let r = m % d;
        assert(-3_000_000_000 <= q <= 3_000_000_000) by (nonlinear_arith)
            requires
                m == d * q + r,
                0 <= r < d,
                1 <= d,
                -((d + 1) * 1_000_000_000) <= m <= (d + 1) * 1_000_000_000,
        ;
    }
    q as i64
}

/// A vector at length one; none for no vector.
pub fn unit_vector(v: &Vec3) -> (u: Vec3)
    requires
        v.within(5_000_000_000_000_000_000),
    ensures
        u.parts() == unit_of(v.parts()),
        u.within(3 * ONE),
{
    let l: i64 = length_of(v);
    if l == 0 {
        return vec3(0, 0, 0);
    }
    proof {
        let s = l as int;
        let x = v.x as int;
        let y = v.y as int;
        let z = v.z as int;
        assert(x * x >= 0 && y * y >= 0 && z * z >= 0) by (nonlinear_arith);
        assert(-(s + 1) <= x <= s + 1) by (nonlinear_arith)
            requires
                x * x < (s + 1) * (s + 1),
                0 <= s,
        ;
        assert(-(s + 1) <= y <= s + 1) by (nonlinear_arith)
            requires
                y * y < (s + 1) * (s + 1),
                0 <= s,
        ;
        assert(-(s + 1) <= z <= s + 1) by (nonlinear_arith)
            requires
                z * z < (s + 1) * (s + 1),
                0 <= s,
        ;
    }
    vec3(unit_part(v.x, l), unit_part(v.y, l), unit_part(v.z, l))
}

}
