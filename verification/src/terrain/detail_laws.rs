//! How much detail, which colour and what height a place gets: laws over chunks, biome
//! weights and samples.

use super::chunk::{distance_sq, lod_for, within_band, LodBand};
use super::generator::{natural_of, NoiseSample, WorldGenConfig};
use super::mesh::{blended, facet_component};
use super::world::{gathers, latitude_of, metres_of};
use crate::fixed::ONE;
use vstd::prelude::*;

verus! {

/// A chunk `n` lengths straight away lies within a band that reaches at least that far,
/// and in no shorter one.
pub proof fn bands_reach_their_distance(n: int, band: LodBand, x: int, camera: (i32, i32))
    requires
        0 <= n,
        x == camera.0 + n || x == camera.0 - n,
    ensures
        distance_sq(x, camera.1 as int, camera) == n * n,
        band.max_distance >= 0 ==> (within_band(n * n, band) <==> n * ONE <= band.max_distance),
        band.max_distance < 0 ==> !within_band(n * n, band),
{
    let d = x - camera.0;
    assert(d * d == n * n) by (nonlinear_arith)
        requires
            d == n || d == -n,
    ;
    let m = band.max_distance as int;
    let k = n * ONE;
    assert(n * n * 1_000_000_000_000_000_000 == k * k) by (nonlinear_arith)
        requires
            k == n * 1_000_000_000,
    ;
    assert(m >= 0 ==> (k * k <= m * m <==> k <= m)) by (nonlinear_arith)
        requires
            k >= 0,
    ;
}

/// The distance between two chunks is the same along every direction of the grid.
pub proof fn chunk_distance_is_by_pythagoras(dx: int, dz: int)
    ensures
        distance_sq(dx, dz, (0i32, 0i32)) == dx * dx + dz * dz,
        distance_sq(-dx, dz, (0i32, 0i32)) == distance_sq(dx, dz, (0i32, 0i32)),
        distance_sq(dz, dx, (0i32, 0i32)) == distance_sq(dx, dz, (0i32, 0i32)),
{
    assert((-dx) * (-dx) == dx * dx) by (nonlinear_arith);
}

/// A chunk gets the detail of the first band that it lies in, or of the last one beyond
/// them all.
pub proof fn first_band_in_reach_decides(d: int, levels: Seq<LodBand>, n: int)
    requires
        0 <= n < levels.len(),
        forall|i: int| 0 <= i < n ==> !within_band(d, #[trigger] levels[i]),
        within_band(d, levels[n]) || n == levels.len() - 1,
    ensures
        lod_for(d, levels) == levels[n].subdivisions,
    decreases levels.len(),
{
    if n > 0 {
        let rest = levels.skip(1);
        assert(!within_band(d, levels[0]));
        assert forall|i: int| 0 <= i < n - 1 implies !within_band(d, #[trigger] rest[i]) by {
            assert(rest[i] == levels[i + 1]);
        }
        assert(rest[n - 1] == levels[n]);
        first_band_in_reach_decides(d, rest, n - 1);
    }
}

/// Where one biome alone counts, its colour is the ground's; and a biome's colour counts
/// by its weight.
pub proof fn colours_count_by_weight(w: Seq<i64>, a: int, b: int, c: int, d: int, more: int)
    requires
        w.len() == 4,
    ensures
        w[0] == ONE && w[1] == 0 && w[2] == 0 && w[3] == 0 ==> blended(w, a, b, c, d) == a,
        w[0] == 0 && w[1] == ONE && w[2] == 0 && w[3] == 0 ==> blended(w, a, b, c, d) == b,
        w[0] == 0 && w[1] == 0 && w[2] == ONE && w[3] == 0 ==> blended(w, a, b, c, d) == c,
        w[0] == 0 && w[1] == 0 && w[2] == 0 && w[3] == ONE ==> blended(w, a, b, c, d) == d,
        ({
            let up = blended(w, a + more, b, c, d) - blended(w, a, b, c, d);
            (up - 1) * ONE <= w[0] * more <= (up + 1) * ONE
        }),
        ({
            let up = blended(w, a, b + more, c, d) - blended(w, a, b, c, d);
            (up - 1) * ONE <= w[1] * more <= (up + 1) * ONE
        }),
        ({
            let up = blended(w, a, b, c + more, d) - blended(w, a, b, c, d);
            (up - 1) * ONE <= w[2] * more <= (up + 1) * ONE
        }),
        ({
            let up = blended(w, a, b, c, d + more) - blended(w, a, b, c, d);
            (up - 1) * ONE <= w[3] * more <= (up + 1) * ONE
        }),
{
    let (p, q, r, s) = (w[0] as int, w[1] as int, w[2] as int, w[3] as int);
    assert(p * (a + more) == p * a + p * more && q * (b + more) == q * b + q * more)
        by (nonlinear_arith);
    assert(r * (c + more) == r * c + r * more && s * (d + more) == s * d + s * more)
        by (nonlinear_arith);
    assert(0 * a == 0 && 0 * b == 0 && 0 * c == 0 && 0 * d == 0);
}

/// A facet's colour is the mean of its three corners'.
pub proof fn facets_take_the_mean(colors: Seq<[i64; 4]>, t: int, k: int)
    requires
        0 <= t,
        3 * t + 2 < colors.len(),
    ensures
        ({
            let sum = colors[3 * t]@[k] + colors[3 * t + 1]@[k] + colors[3 * t + 2]@[k];
            let m = facet_component(colors, 3 * t, k);
            &&& 3 * m <= sum < 3 * (m + 1)
            &&& facet_component(colors, 3 * t + 1, k) == m
            &&& facet_component(colors, 3 * t + 2, k) == m
        }),
{
    assert((3 * t) / 3 == t && (3 * t + 1) / 3 == t && (3 * t + 2) / 3 == t);
}

/// Every terrain layer adds its noise by its amplitude: broad features count most, and
/// noise of one in all of them lifts the sum by 10.65.
pub proof fn terrain_layers_add_up(sample: NoiseSample, noise: Seq<i64>, latitude_cos: int)
    requires
        noise.len() == 8,
        gathers(sample, noise, latitude_cos),
    ensures
        ({
            let sum = 4_500 * noise[0] + 3_500 * noise[1] + 1_750 * noise[2] + 500 * noise[3] + 400
                * noise[4];
            1_000 * sample.base <= sum < 1_000 * (sample.base + 5)
        }),
        sample.temperature == noise[5],
        sample.humidity == noise[6],
        sample.continent == noise[7],
        sample.latitude_cos == latitude_cos,
{
}

/// The bands of latitude repeat: a band further the angle is a full turn on.
pub proof fn latitudes_repeat(config: WorldGenConfig, z: int)
    requires
        config.latitude_band > 1_000_000_000,
    ensures
        latitude_of(config, z + config.latitude_band) == latitude_of(config, z) + 6_283_185_307,
        ({
            let angle = latitude_of(config, z);
            angle * config.latitude_band <= z * 6_283_185_307 < (angle + 1) * config.latitude_band
        }),
{
    let band = config.latitude_band as int;
    let n = z * 6_283_185_307;
    vstd::arithmetic::div_mod::lemma_fundamental_div_mod(n, band);
    let q = n / band;
    let r = n % band;
    assert(q * band <= n < (q + 1) * band) by (nonlinear_arith)
        requires
            n == band * q + r,
            0 <= r < band,
    ;
    let m = (z + band) * 6_283_185_307;
    assert(m == band * (q + 6_283_185_307) + r) by (nonlinear_arith)
        requires
            n == z * 6_283_185_307,
            m == (z + band) * 6_283_185_307,
            n == band * q + r,
    ;
    vstd::arithmetic::div_mod::lemma_fundamental_div_mod_converse(
        m,
        band,
        q + 6_283_185_307,
        r,
    );
}

/// The height in metres is the raw height times the height scale.
pub proof fn metres_scale_the_raw_height(config: WorldGenConfig, sample: NoiseSample)
    ensures
        ({
            let metres = metres_of(config, sample);
            let raw = natural_of(config, sample).0;
            metres * ONE <= raw * config.height_scale < (metres + 1) * ONE
        }),
{
}

}
