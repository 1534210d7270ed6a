//! Filling the map's background texture, and mapping between the world and the
//! map on screen. World +X is right and world +Z is down. Lengths are in
//! nanometres, pixels with nine decimals.

use crate::fixed::{clamped, floor_div, ONE};
use vstd::prelude::*;

verus! {

/// Background texture resolution (square).
pub const TEX: u32 = 256;

/// Bytes of the texture: four per texel.
pub const TEX_BYTES: usize = 262_144;

/// Half the extent that the texture covers: the map spans the centre plus and
/// minus this.
pub open spec fn half_span_of(world_per_texel: int) -> int {
    128 * world_per_texel
}

/// Half the world-space extent of the map at a zoom.
pub fn half_span(world_per_texel: i64) -> (half: i64)
    requires
        0 <= world_per_texel <= 10_000_000_000_000,
    ensures
        half == half_span_of(world_per_texel as int),
{
    128 * world_per_texel
}

/// Coordinate of a texel's centre along one axis.
pub open spec fn texel_center_of(center: int, world_per_texel: int, t: int) -> int {
    center - half_span_of(world_per_texel) + ((2 * t + 1) * world_per_texel) / 2
}

/// Coordinate of the centre of texel `t` along one axis.
pub fn texel_center(center: i64, world_per_texel: i64, t: u32) -> (v: i64)
    requires
        -9_000_000_000_000_000_000 <= center <= 9_000_000_000_000_000_000,
        0 <= world_per_texel <= 10_000_000_000_000,
        t < TEX,
    ensures
        v == texel_center_of(center as int, world_per_texel as int, t as int),
{
    let k: i64 = 2 * (t as i64) + 1;
    assert(0 <= k * world_per_texel <= 511 * 10_000_000_000_000) by (nonlinear_arith)
        requires
            0 <= k <= 511,
            0 <= world_per_texel <= 10_000_000_000_000,
    ;
    center - 128 * world_per_texel + (k * world_per_texel) / 2
}

/// The texels lie within the map's span and ascend, one zoom step apart.
pub proof fn texels_tile_the_span(center: int, world_per_texel: int, t: int)
    requires
        world_per_texel >= 2,
        0 <= t < TEX,
    ensures
        center - half_span_of(world_per_texel) <= texel_center_of(center, world_per_texel, t)
            <= center + half_span_of(world_per_texel),
        texel_center_of(center, world_per_texel, t + 1) == texel_center_of(
            center,
            world_per_texel,
            t,
        ) + world_per_texel,
{
    let w = world_per_texel;
    assert((2 * (t + 1) + 1) * w == (2 * t + 1) * w + 2 * w) by (nonlinear_arith);
    assert(0 <= (2 * t + 1) * w <= 511 * w) by (nonlinear_arith)
        requires
            0 <= t <= 255,
            w >= 0,
    ;
}

/// The rows of `data` from `start` up to `end` hold `texels`, row by row.
pub open spec fn rows_hold(data: Seq<u8>, start: int, end: int, texels: Seq<[u8; 4]>) -> bool {
    forall|n: int, k: int|
        #![trigger texels[n]@[k]]
        0 <= n < (end - start) * 256 && 0 <= k < 4 ==> data[start * 1024 + n * 4 + k]
            == texels[n]@[k]
}

/// Writes the texels of the rows from `start` up to `end` into the texture;
/// `texels` holds them row by row.
pub fn bake_rows(data: &mut Vec<u8>, start: u32, end: u32, texels: &Vec<[u8; 4]>)
    requires
        start <= end <= TEX,
        old(data)@.len() == TEX_BYTES,
        texels@.len() == (end - start) * 256,
    ensures
        final(data)@.len() == TEX_BYTES,
        rows_hold(final(data)@, start as int, end as int, texels@),
        forall|i: int|
            0 <= i < TEX_BYTES && (i < start * 1024 || i >= end * 1024) ==> #[trigger] final(data)@[i]
                == old(data)@[i],
{
    let base: usize = start as usize * 1024;
    let count: usize = texels.len();
    let mut n: usize = 0;
    while n < count
        invariant
            n <= count,
            count == texels@.len(),
            start <= end <= TEX,
            count == (end - start) * 256,
            base == start * 1024,
            data@.len() == TEX_BYTES,
            forall|m: int, k: int|
                #![trigger texels@[m]@[k]]
                0 <= m < n && 0 <= k < 4 ==> data@[base + m * 4 + k] == texels@[m]@[k],
            forall|i: int|
                0 <= i < TEX_BYTES && (i < base || i >= base + n * 4) ==> #[trigger] data@[i]
                    == old(data)@[i],
        decreases count - n,
    {
        let texel: [u8; 4] = texels[n];
        let at: usize = base + n * 4;
        data.set(at, texel[0]);
        data.set(at + 1, texel[1]);
        data.set(at + 2, texel[2]);
        data.set(at + 3, texel[3]);
        n = n + 1;
    }
}

/// The texture that shows nothing.
pub fn wiped() -> (data: Vec<u8>)
    ensures
        data@ == Seq::new(TEX_BYTES as nat, |i: int| 0u8),
{
    let mut data: Vec<u8> = Vec::with_capacity(TEX_BYTES);
    let mut i: usize = 0;
    while i < TEX_BYTES
        invariant
            i <= TEX_BYTES,
            data.len() == i,
            forall|k: int| 0 <= k < i ==> #[trigger] data@[k] == 0,
        decreases TEX_BYTES - i,
    {
        data.push(0);
        i = i + 1;
    }
    assert(data@ =~= Seq::new(TEX_BYTES as nat, |i: int| 0u8));
    data
}

/// A fraction as a byte, rounded to the nearest.
pub open spec fn byte_of(v: int) -> int {
    (2 * 255 * clamped(v, 0, ONE as int) + ONE) / (2 * ONE)
}

/// A fraction as a colour byte.
pub fn to_u8(v: i64) -> (b: u8)
    ensures
        b == byte_of(v as int),
{
    let c: i64 = if v < 0 {
        0
    } else if v > 1_000_000_000 {
        1_000_000_000
    } else {
        v
    };
    let n: i64 = 510 * c + 1_000_000_000;
    let q: i64 = n / 2_000_000_000;
    proof {
        vstd::arithmetic::div_mod::lemma_fundamental_div_mod(n as int, 2_000_000_000);
        let r = n as int % 2_000_000_000;
        assert(0 <= q <= 255) by (nonlinear_arith)
            requires
                n == 2_000_000_000 * q + r,
                0 <= r < 2_000_000_000,
                0 <= n <= 511_000_000_000,
        ;
    }
    q as u8
}

/// One texel of the height layer: below sea level blue, darker with depth down to
/// 300 m; land grey, brighter with height up to 450 m.
pub open spec fn height_colour(h: int) -> Seq<int> {
    if h < 0 {
        let shallow = ONE - clamped((-h) / 300, 0, ONE as int);
        seq![
            byte_of(50_000_000 + shallow / 10),
            byte_of(150_000_000 + shallow / 4),
            byte_of(300_000_000 + (35 * shallow) / 100),
            255,
        ]
    } else {
        let g = byte_of(150_000_000 + (8 * clamped(h / 450, 0, ONE as int)) / 10);
        seq![g, g, g, 255]
    }
}

/// One height-layer texel for a ground height in nanometres.
pub fn height_texel(h: i64) -> (rgba: [u8; 4])
    requires
        h > i64::MIN,
    ensures
        rgba@.map_values(|b: u8| b as int) == height_colour(h as int),
{
    let rgba: [u8; 4] = if h < 0 {
        let d: i64 = -h / 300;
        let shallow: i64 = if d > 1_000_000_000 {
            0
        } else {
            1_000_000_000 - d
        };
        [
            to_u8(50_000_000 + shallow / 10),
            to_u8(150_000_000 + shallow / 4),
            to_u8(300_000_000 + (35 * shallow) / 100),
            255,
        ]
    } else {
        let t: i64 = h / 450;
        let land: i64 = if t > 1_000_000_000 {
            1_000_000_000
        } else {
            t
        };
        let g: u8 = to_u8(150_000_000 + (8 * land) / 10);
        [g, g, g, 255]
    };
    assert(rgba@.map_values(|b: u8| b as int) =~= height_colour(h as int));
    rgba
}

/// Where a world coordinate appears on the map along one axis.
pub open spec fn screen_of(world: int, center: int, half: int, origin: int, size: int) -> int {
    origin + ((world - (center - half)) * size) / (2 * half)
}

/// Maps a world coordinate onto the map widget along one axis: `origin` is where
/// the widget begins, `size` its extent.
pub fn world_to_screen(world: i64, center: i64, half: i64, origin: i64, size: i64) -> (s: i64)
    requires
        2_560_000_000_000 <= half <= 1_000_000_000_000_000_000,
        0 <= size <= 2_000_000_000_000,
        -10_000_000_000_000 <= origin <= 10_000_000_000_000,
    ensures
        s == screen_of(world as int, center as int, half as int, origin as int, size as int),
{
    let off: i128 = world as i128 - (center as i128 - half as i128);
    let w: i128 = size as i128;
    assert(-20_000_000_000_000_000_000 * 2_000_000_000_000 <= off * w <= 20_000_000_000_000_000_000
        * 2_000_000_000_000) by (nonlinear_arith)
        requires
            -20_000_000_000_000_000_000 <= off <= 20_000_000_000_000_000_000,
            0 <= w <= 2_000_000_000_000,
    ;
    let d: i128 = 2 * (half as i128);
    let q: i128 = floor_div(off * w, d);
    proof {
        vstd::arithmetic::div_mod::lemma_fundamental_div_mod((off * w) as int, d as int);
        let r = ((off * w) as int) % (d as int);
        let n = (off * w) as int;
        assert(-8_000_000_000_000_000_000 <= q <= 8_000_000_000_000_000_000) by (nonlinear_arith)
            requires
                n == d * q + r,
                0 <= r < d,
                d >= 5_120_000_000_000,
                -40_000_000_000_000_000_000_000_000_000_000 <= n
                    <= 40_000_000_000_000_000_000_000_000_000_000,
        ;
    }
    (origin as i128 + q) as i64
}

/// The map's centre appears in the middle of the widget, and its edges at the
/// widget's edges.
pub proof fn view_fills_the_widget(center: int, half: int, origin: int, size: int)
    requires
        half > 0,
    ensures
        screen_of(center, center, half, origin, size) == origin + size / 2,
        screen_of(center - half, center, half, origin, size) == origin,
        screen_of(center + half, center, half, origin, size) == origin + size,
{
    assert(half * size == size * half) by (nonlinear_arith);
    assert((2 * half) * size == size * (2 * half)) by (nonlinear_arith);
    vstd::arithmetic::div_mod::lemma_div_multiples_vanish(size, 2 * half);
    vstd::arithmetic::div_mod::lemma_div_basics(2 * half);
    assert((0int * size) == 0);
    let q = size / 2;
    let r = size % 2;
    vstd::arithmetic::div_mod::lemma_fundamental_div_mod(size, 2);
    assert(half * size == (2 * half) * q + half * r) by (nonlinear_arith)
        requires
            size == 2 * q + r,
    ;
    assert(0 <= half * r < 2 * half) by (nonlinear_arith)
        requires
            0 <= r <= 1,
            half > 0,
    ;
    vstd::arithmetic::div_mod::lemma_fundamental_div_mod_converse(
        half * size,
        2 * half,
        q,
        half * r,
    );
}

}
