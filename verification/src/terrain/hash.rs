//! The integer hash behind the deterministic layout of the world.

use vstd::prelude::*;

verus! {

/// Product in 32-bit arithmetic.
pub open spec fn times(x: u32, c: u32) -> u32 {
    ((x * c) % 0x1_0000_0000) as u32
}

/// Sum in 32-bit arithmetic.
pub open spec fn plus(x: u32, c: u32) -> u32 {
    ((x + c) % 0x1_0000_0000) as u32
}

/// Integer avalanche hash (lowbias32 by Chris Wellons).
#[verifier::opaque]
pub open spec fn avalanche(x: u32) -> u32 {
    let a = x ^ (x >> 16);
    let b = times(a, 0x7feb_352d);
    let c = b ^ (b >> 15);
    let d = times(c, 0x846c_a68b);
    d ^ (d >> 16)
}

/// Hash of grid cell `(gx, gz)` under `seed`.
pub open spec fn hash_of_cell(seed: u32, gx: i32, gz: i32) -> u32 {
    let a = avalanche(seed ^ 0x9e37_79b9);
    let b = avalanche(times(plus(a, gx as u32), 0x85eb_ca6b));
    avalanche(times(plus(b, gz as u32), 0xc2b2_ae35))
}

fn wrapping_times(x: u32, c: u32) -> (p: u32)
    ensures
        p == times(x, c),
{
    x.wrapping_mul(c)
}

fn wrapping_plus(x: u32, c: u32) -> (p: u32)
    ensures
        p == plus(x, c),
{
    x.wrapping_add(c)
}

/// The hash [`avalanche`].
pub fn hash_u32(x: u32) -> (h: u32)
    ensures
        h == avalanche(x),
{
    reveal(avalanche);
    let a: u32 = x ^ (x >> 16);
    let b: u32 = wrapping_times(a, 0x7feb_352d);
    let c: u32 = b ^ (b >> 15);
    let d: u32 = wrapping_times(c, 0x846c_a68b);
    d ^ (d >> 16)
}

/// Uniform in `0..1` from a hash state, as a numerator over `2^24`.
pub fn hash01(x: u32) -> (n: u32)
    ensures
        n == avalanche(x) >> 8,
        n < 0x100_0000,
{
    let h: u32 = hash_u32(x);
    assert(h >> 8 < 0x100_0000) by (bit_vector);
    h >> 8
}

/// A stable hash for grid cell `(gx, gz)` under `seed`.
pub fn cell_hash(seed: u32, gx: i32, gz: i32) -> (h: u32)
    ensures
        h == hash_of_cell(seed, gx, gz),
{
    let a: u32 = hash_u32(seed ^ 0x9e37_79b9);
    let b: u32 = hash_u32(wrapping_times(wrapping_plus(a, gx as u32), 0x85eb_ca6b));
    hash_u32(wrapping_times(wrapping_plus(b, gz as u32), 0xc2b2_ae35))
}

/// An odd factor can be divided out again in 32-bit arithmetic.
proof fn lemma_times_cancels(x: u32, c: u32, inverse: u32)
    requires
        (c * inverse) % 0x1_0000_0000 == 1,
    ensures
        times(times(x, c), inverse) == x,
{
    let m: int = 0x1_0000_0000;
    vstd::arithmetic::div_mod::lemma_mul_mod_noop_left(x * c, inverse as int, m);
    assert((x * c) * inverse == x * (c * inverse)) by (nonlinear_arith);
    vstd::arithmetic::div_mod::lemma_mul_mod_noop_right(x as int, c * inverse, m);
    assert(((x * c) % m) * inverse % m == (x * 1) % m);
}

/// The hash never sends two inputs to one output.
pub proof fn avalanche_is_injective(x: u32, y: u32)
    requires
        avalanche(x) == avalanche(y),
    ensures
        x == y,
{
    reveal(avalanche);
    let a = x ^ (x >> 16);
    let b = times(a, 0x7feb_352d);
    let c = b ^ (b >> 15);
    let d = times(c, 0x846c_a68b);
    let aa = y ^ (y >> 16);
    let bb = times(aa, 0x7feb_352d);
    let cc = bb ^ (bb >> 15);
    let dd = times(cc, 0x846c_a68b);
    assert(d == dd) by (bit_vector)
        requires
            d ^ (d >> 16) == dd ^ (dd >> 16),
    ;
    lemma_times_cancels(c, 0x846c_a68b, 0x4302_1123);
    lemma_times_cancels(cc, 0x846c_a68b, 0x4302_1123);
    assert(b == bb) by (bit_vector)
        requires
            b ^ (b >> 15) == bb ^ (bb >> 15),
    ;
    lemma_times_cancels(a, 0x7feb_352d, 0x1d69_e2a5);
    lemma_times_cancels(aa, 0x7feb_352d, 0x1d69_e2a5);
    assert(x == y) by (bit_vector)
        requires
            x ^ (x >> 16) == y ^ (y >> 16),
    ;
}

proof fn lemma_plus_cancels(a: u32, x: u32, y: u32)
    requires
        plus(a, x) == plus(a, y),
    ensures
        x == y,
{
}

/// Two seeds never give a cell the same hash.
pub proof fn cells_differ_by_seed(seed_a: u32, seed_b: u32, gx: i32, gz: i32)
    requires
        seed_a != seed_b,
    ensures
        hash_of_cell(seed_a, gx, gz) != hash_of_cell(seed_b, gx, gz),
{
    if hash_of_cell(seed_a, gx, gz) == hash_of_cell(seed_b, gx, gz) {
        let a = avalanche(seed_a ^ 0x9e37_79b9);
        let b = avalanche(seed_b ^ 0x9e37_79b9);
        let p = avalanche(times(plus(a, gx as u32), 0x85eb_ca6b));
        let q = avalanche(times(plus(b, gx as u32), 0x85eb_ca6b));
        lemma_row_step(p, q, gz as u32, gz as u32, 0xc2b2_ae35, 0x7ed1_b41d);
        lemma_plus_cancels(gz as u32, p, q);
        lemma_row_step(a, b, gx as u32, gx as u32, 0x85eb_ca6b, 0xa5cb_9243);
        lemma_plus_cancels(gx as u32, a, b);
        avalanche_is_injective(seed_a ^ 0x9e37_79b9, seed_b ^ 0x9e37_79b9);
        assert(seed_a == seed_b) by (bit_vector)
            requires
                seed_a ^ 0x9e37_79b9 == seed_b ^ 0x9e37_79b9,
        ;
    }
}

/// Two cells of one row, or of one column, never have the same hash.
pub proof fn cells_differ_along_a_line(seed: u32, a: (i32, i32), b: (i32, i32))
    requires
        a != b,
        a.0 == b.0 || a.1 == b.1,
    ensures
        hash_of_cell(seed, a.0, a.1) != hash_of_cell(seed, b.0, b.1),
{
    if hash_of_cell(seed, a.0, a.1) == hash_of_cell(seed, b.0, b.1) {
        let s = avalanche(seed ^ 0x9e37_79b9);
        let p = avalanche(times(plus(s, a.0 as u32), 0x85eb_ca6b));
        let q = avalanche(times(plus(s, b.0 as u32), 0x85eb_ca6b));
        lemma_row_step(p, q, a.1 as u32, b.1 as u32, 0xc2b2_ae35, 0x7ed1_b41d);
        if a.0 == b.0 {
            lemma_plus_cancels(p, a.1 as u32, b.1 as u32);
            lemma_cast_injective(a.1, b.1);
        } else {
            lemma_plus_cancels(a.1 as u32, p, q);
            lemma_row_step(s, s, a.0 as u32, b.0 as u32, 0x85eb_ca6b, 0xa5cb_9243);
            lemma_plus_cancels(s, a.0 as u32, b.0 as u32);
            lemma_cast_injective(a.0, b.0);
        }
    }
}

proof fn lemma_row_step(a: u32, b: u32, x: u32, y: u32, c: u32, inverse: u32)
    requires
        avalanche(times(plus(a, x), c)) == avalanche(times(plus(b, y), c)),
        (c * inverse) % 0x1_0000_0000 == 1,
    ensures
        plus(a, x) == plus(b, y),
{
    avalanche_is_injective(times(plus(a, x), c), times(plus(b, y), c));
    lemma_times_cancels(plus(a, x), c, inverse);
    lemma_times_cancels(plus(b, y), c, inverse);
}

proof fn lemma_cast_injective(x: i32, y: i32)
    requires
        x as u32 == y as u32,
    ensures
        x == y,
{
    assert(x == y) by (bit_vector)
        requires
            x as u32 == y as u32,
    ;
}

}
