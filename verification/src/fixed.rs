//! Fixed-point quantities with nine decimals.
//!
//! A quantity `q` is held as the integer `q * 1_000_000_000`: metres become
//! nanometres, kilograms micrograms, a lever position of one half becomes
//! `500_000_000`. Time spans are nanoseconds, so a rate per second times a span
//! is one product and one division by [`ONE`].

use vstd::prelude::*;

verus! {

/// The number one.
pub const ONE: i64 = 1_000_000_000;

/// The product of two fixed-point quantities, rounded toward minus infinity.
pub open spec fn scaled(a: int, b: int) -> int {
    (a * b) / (ONE as int)
}

/// `x` moved into `lo..=hi`.
pub open spec fn clamped(x: int, lo: int, hi: int) -> int {
    if x < lo {
        lo
    } else if x > hi {
        hi
    } else {
        x
    }
}

/// Quotient rounded toward minus infinity.
pub fn floor_div(n: i128, d: i128) -> (q: i128)
    requires
        d > 0,
        n > i128::MIN,
    ensures
        q == (n as int) / (d as int),
{
    if n >= 0 {
        n / d
    } else {
        let m: i128 = -n;
        let q: i128 = m / d;
        let r: i128 = m % d;
        proof {
            vstd::arithmetic::div_mod::lemma_fundamental_div_mod(m as int, d as int);
            vstd::arithmetic::div_mod::lemma_fundamental_div_mod(n as int, d as int);
            if r == 0 {
                assert(n == d * (-q)) by (nonlinear_arith)
                    requires
                        m == d * q + r,
                        r == 0,
                        n == -m,
                ;
                vstd::arithmetic::div_mod::lemma_fundamental_div_mod_converse(
                    n as int,
                    d as int,
                    -q as int,
                    0,
                );
            } else {
                assert(n == d * (-q - 1) + (d - r)) by (nonlinear_arith)
                    requires
                        m == d * q + r,
                        n == -m,
                ;
                vstd::arithmetic::div_mod::lemma_fundamental_div_mod_converse(
                    n as int,
                    d as int,
                    -q - 1,
                    d - r,
                );
            }
        }
        if r == 0 {
            -q
        } else {
            -q - 1
        }
    }
}

/// `r` is the square root of `n`, rounded down.
pub open spec fn is_root(r: int, n: int) -> bool {
    0 <= r && r * r <= n && n < (r + 1) * (r + 1)
}

/// The square root of `n`, rounded down.
pub open spec fn root(n: int) -> int {
    choose|r: int| is_root(r, n)
}

/// A number has at most one square root.
pub proof fn root_is_unique(r: int, s: int, n: int)
    requires
        is_root(r, n),
        is_root(s, n),
    ensures
        r == s,
{
    assert(r <= s) by (nonlinear_arith)
        requires
            0 <= r,
            0 <= s,
            r * r <= n,
            n < (s + 1) * (s + 1),
    ;
    assert(s <= r) by (nonlinear_arith)
        requires
            0 <= r,
            0 <= s,
            s * s <= n,
            n < (r + 1) * (r + 1),
    ;
}

/// Every natural number has a square root.
pub proof fn root_exists(n: int)
    requires
        n >= 0,
    ensures
        is_root(root(n), n),
    decreases n,
{
    if n == 0 {
        assert(is_root(0, 0));
    } else {
        root_exists(n - 1);
        let r = root(n - 1);
        if n < (r + 1) * (r + 1) {
            assert(is_root(r, n));
        } else {
            assert(n < (r + 2) * (r + 2)) by (nonlinear_arith)
                requires
                    0 <= r,
                    n - 1 < (r + 1) * (r + 1),
            ;
            assert(is_root(r + 1, n));
        }
    }
}

/// The root of a number is at least any number whose square it reaches.
pub proof fn root_is_at_least(m: int, n: int)
    requires
        0 <= m,
        m * m <= n,
    ensures
        m <= root(n),
{
    root_exists(n);
    let r = root(n);
    assert(m <= r) by (nonlinear_arith)
        requires
            0 <= m,
            0 <= r,
            m * m <= n,
            n < (r + 1) * (r + 1),
    ;
}

/// Square root, rounded down.
pub fn sqrt_floor(n: i128) -> (r: i64)
    requires
        0 <= n < 0x3fff_ffff_ffff_ffff_0000_0000_0000_0000,
    ensures
        r == root(n as int),
        is_root(r as int, n as int),
{
    let mut lo: i128 = 0;
    let mut hi: i128 = 0x8000_0000_0000_0000;
    while hi - lo > 1
        invariant
            0 <= lo < hi <= 0x8000_0000_0000_0000,
            lo * lo <= n < hi * hi,
        decreases hi - lo,
    {
        let mid: i128 = lo + (hi - lo) / 2;
        assert(0 <= mid * mid <= 0x4000_0000_0000_0000_0000_0000_0000_0000) by (nonlinear_arith)
            requires
                0 <= mid <= 0x8000_0000_0000_0000,
        ;
        if mid * mid <= n {
            lo = mid;
        } else {
            hi = mid;
        }
    }
    proof {
        assert(is_root(lo as int, n as int));
        root_is_unique(lo as int, root(n as int), n as int);
    }
    lo as i64
}

/// `x` moved into `lo..=hi`.
pub fn clamp(x: i128, lo: i64, hi: i64) -> (r: i64)
    requires
        lo <= hi,
    ensures
        r == clamped(x as int, lo as int, hi as int),
{
    if x < lo as i128 {
        lo
    } else if x > hi as i128 {
        hi
    } else {
        x as i64
    }
}

/// The product of two fixed-point quantities, rounded toward minus infinity.
pub fn scale(a: i64, b: i64) -> (r: i128)
    ensures
        r == scaled(a as int, b as int),
        -90_000_000_000_000_000_000_000_000_000 <= r <= 90_000_000_000_000_000_000_000_000_000,
{
    let x: i128 = a as i128;
    let y: i128 = b as i128;
    assert(-0x4000_0000_0000_0000_0000_0000_0000_0000 <= x * y
        <= 0x4000_0000_0000_0000_0000_0000_0000_0000) by (nonlinear_arith)
        requires
            -0x8000_0000_0000_0000 <= x <= 0x7fff_ffff_ffff_ffff,
            -0x8000_0000_0000_0000 <= y <= 0x7fff_ffff_ffff_ffff,
    ;
    floor_div(x * y, 1_000_000_000)
}

/// A weighted step from `from` to `to` stays between them.
pub proof fn blend_stays_between(from: int, to: int, weight: int)
    requires
        0 <= weight <= ONE,
    ensures
        from <= to ==> from <= from + scaled(to - from, weight) <= to,
        to <= from ==> to <= from + scaled(to - from, weight) <= from,
        weight == 0 ==> scaled(to - from, weight) == 0,
        weight == ONE ==> scaled(to - from, weight) == to - from,
{
    let d = to - from;
    let one = ONE as int;
    if d >= 0 {
        assert(0 <= d * weight <= d * one) by (nonlinear_arith)
            requires
                0 <= d,
                0 <= weight <= one,
        ;
    } else {
        assert(d * one <= d * weight <= 0) by (nonlinear_arith)
            requires
                d <= 0,
                0 <= weight <= one,
        ;
    }
    assert(weight == 0 ==> d * weight == 0) by (nonlinear_arith);
}

/// Rounding twice along a chain of two products loses less than one part of each.
pub proof fn chain_of_products(a: int, b: int, c: int)
    requires
        0 <= c,
    ensures
        scaled(scaled(a, b), c) * ONE * ONE <= a * b * c,
        a * b * c < (scaled(scaled(a, b), c) + 1) * ONE * ONE + ONE * c,
{
    let p = scaled(a, b);
    let q = scaled(p, c);
    let ab = a * b;
    assert(q * 1_000_000_000 * 1_000_000_000 <= ab * c && ab * c < (q + 1) * 1_000_000_000
        * 1_000_000_000 + 1_000_000_000 * c || c == 0 && q == 0) by (nonlinear_arith)
        requires
            p * 1_000_000_000 <= ab,
            ab < p * 1_000_000_000 + 1_000_000_000,
            q * 1_000_000_000 <= p * c,
            p * c < q * 1_000_000_000 + 1_000_000_000,
            0 <= c,
    ;
    assert(c == 0 ==> ab * c == 0) by (nonlinear_arith);
}

/// `from` moved towards `to` by the fraction `weight`.
pub fn blend(from: i64, to: i64, weight: i64) -> (r: i64)
    requires
        0 <= weight <= ONE,
    ensures
        r == from + scaled(to - from, weight as int),
{
    proof {
        blend_stays_between(from as int, to as int, weight as int);
    }
    let d: i128 = to as i128 - from as i128;
    let w: i128 = weight as i128;
    assert(-0x1_0000_0000_0000_0000 * 1_000_000_000 <= d * w <= 0x1_0000_0000_0000_0000
        * 1_000_000_000) by (nonlinear_arith)
        requires
            -0x1_0000_0000_0000_0000 <= d <= 0x1_0000_0000_0000_0000,
            0 <= w <= 1_000_000_000,
    ;
    (from as i128 + floor_div(d * w, 1_000_000_000)) as i64
}

}
