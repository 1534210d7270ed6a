//! What noise, climate and sea make of the land: laws that relate the ground at one
//! noise sum, climate or setting to the ground at another.

use super::generator::{
    biome_of, blend_weights, climate_of, continentalness_of, cooled, corner_weights, layers_of,
    mixed, mixes, natural_of, noise_coordinates, ocean_share, per_size, remapped, shaped, LayerPlan,
    NoiseSample, PaletteMix, TerrainStop, WorldGenConfig,
};
use crate::fixed::{scaled, ONE};
use vstd::prelude::*;

verus! {

/// By how much ground rises per unit of noise.
pub open spec fn relief_at(config: WorldGenConfig, temp: int, humidity: int, ocean: int) -> int {
    shaped(config, ONE as int, temp, humidity, ocean) - shaped(config, 0, temp, humidity, ocean)
}

/// At one climate and distance from the sea the raw height is a straight line over the
/// noise: noise `b` lifts the ground by `b` times what noise one lifts it.
pub proof fn noise_lifts_the_ground(
    config: WorldGenConfig,
    base: int,
    temp: int,
    humidity: int,
    ocean: int,
)
    ensures
        ({
            let rise = shaped(config, base, temp, humidity, ocean) - shaped(
                config,
                0,
                temp,
                humidity,
                ocean,
            );
            rise * ONE <= base * relief_at(config, temp, humidity, ocean) < (rise + 1) * ONE
        }),
{
    let w = blend_weights(config, temp, humidity);
    let land = mixed(
        w,
        config.grasslands.relief as int,
        config.taiga.relief as int,
        config.desert.relief as int,
        config.forest.relief as int,
    );
    let relief = land + scaled(10_000_000 - land, ocean);
    assert(scaled(0, relief) == 0) by {
        assert(0 * relief == 0);
    }
    assert(scaled(ONE as int, relief) == relief);
}

/// A corner of the climate square is one biome alone: its elevation is the ground
/// without noise, its relief what the noise is multiplied by. Cold and dry is
/// grassland, cold and humid taiga, hot and dry desert, hot and humid forest.
pub proof fn corners_are_one_biome(config: WorldGenConfig)
    requires
        config.grasslands.abundance > 1_000,
        config.taiga.abundance > 1_000,
        config.desert.abundance > 1_000,
        config.forest.abundance > 1_000,
    ensures
        shaped(config, 0, 0, 0, 0) == config.grasslands.elevation,
        relief_at(config, 0, 0, 0) == config.grasslands.relief,
        shaped(config, 0, 0, ONE as int, 0) == config.taiga.elevation,
        relief_at(config, 0, ONE as int, 0) == config.taiga.relief,
        shaped(config, 0, ONE as int, 0, 0) == config.desert.elevation,
        relief_at(config, ONE as int, 0, 0) == config.desert.relief,
        shaped(config, 0, ONE as int, ONE as int, 0) == config.forest.elevation,
        relief_at(config, ONE as int, ONE as int, 0) == config.forest.relief,
{
    let one = ONE as int;
    lemma_corner(config, 0, 0, 0);
    lemma_corner(config, 0, one, 1);
    lemma_corner(config, one, 0, 2);
    lemma_corner(config, one, one, 3);
    lemma_rises(config, 0, 0, 0);
    lemma_rises(config, 0, one, 0);
    lemma_rises(config, one, 0, 0);
    lemma_rises(config, one, one, 0);
    assert(forall|x: int| #[trigger] scaled(x, 0) == 0) by {
        assert forall|x: int| #[trigger] scaled(x, 0) == 0 by {
            assert(x * 0 == 0);
        }
    }
}

/// Elevation and relief of the land before the sea takes its share.
spec fn land_elevation(config: WorldGenConfig, temp: int, humidity: int) -> int {
    mixed(
        blend_weights(config, temp, humidity),
        config.grasslands.elevation as int,
        config.taiga.elevation as int,
        config.desert.elevation as int,
        config.forest.elevation as int,
    )
}

spec fn land_relief(config: WorldGenConfig, temp: int, humidity: int) -> int {
    mixed(
        blend_weights(config, temp, humidity),
        config.grasslands.relief as int,
        config.taiga.relief as int,
        config.desert.relief as int,
        config.forest.relief as int,
    )
}

proof fn lemma_rises(config: WorldGenConfig, temp: int, humidity: int, ocean: int)
    ensures
        ({
            let e = land_elevation(config, temp, humidity);
            let r = land_relief(config, temp, humidity);
            &&& shaped(config, 0, temp, humidity, ocean) == e + scaled(
                -config.ocean_depth - e,
                ocean,
            )
            &&& relief_at(config, temp, humidity, ocean) == r + scaled(10_000_000 - r, ocean)
        }),
{
    let r = land_relief(config, temp, humidity);
    let relief = r + scaled(10_000_000 - r, ocean);
    assert(0 * relief == 0);
    assert(scaled(ONE as int, relief) == relief);
}

proof fn lemma_pick(i: int, a: int, b: int, c: int, d: int)
    requires
        0 <= i < 4,
    ensures
        mixed(seq![0int, 0, 0, 0].update(i, ONE as int), a, b, c, d) == seq![a, b, c, d][i],
{
    assert(0 * a == 0 && 0 * b == 0 && 0 * c == 0 && 0 * d == 0);
    let w = seq![0int, 0, 0, 0].update(i, ONE as int);
    if i == 0 {
        assert(w[0] * a == ONE * a);
    } else if i == 1 {
        assert(w[1] * b == ONE * b);
    } else if i == 2 {
        assert(w[2] * c == ONE * c);
    } else {
        assert(w[3] * d == ONE * d);
    }
}

proof fn lemma_corner(config: WorldGenConfig, temp: int, humidity: int, i: int)
    requires
        config.grasslands.abundance > 1_000,
        config.taiga.abundance > 1_000,
        config.desert.abundance > 1_000,
        config.forest.abundance > 1_000,
        temp == 0 || temp == ONE,
        humidity == 0 || humidity == ONE,
        i == (if temp == 0 {
            0int
        } else {
            2
        }) + (if humidity == 0 {
            0int
        } else {
            1
        }),
    ensures
        blend_weights(config, temp, humidity) == seq![0int, 0, 0, 0].update(i, ONE as int),
        ({
            let c = config;
            land_elevation(c, temp, humidity) == seq![
                c.grasslands.elevation as int,
                c.taiga.elevation as int,
                c.desert.elevation as int,
                c.forest.elevation as int,
            ][i]
        }),
        ({
            let c = config;
            land_relief(c, temp, humidity) == seq![
                c.grasslands.relief as int,
                c.taiga.relief as int,
                c.desert.relief as int,
                c.forest.relief as int,
            ][i]
        }),
{
    let c = corner_weights(config, temp, humidity);
    let a = seq![
        config.grasslands.abundance as int,
        config.taiga.abundance as int,
        config.desert.abundance as int,
        config.forest.abundance as int,
    ];
    let (t, h) = (temp, humidity);
    let (a0, a1, a2, a3) = (a[0], a[1], a[2], a[3]);
    let n = 1_000_000_000int;
    let nn = 1_000_000_000_000_000_000int;
    assert({
        &&& (n - t) * (n - h) * a0 == if i == 0 {
            nn * a0
        } else {
            0
        }
        &&& (n - t) * h * a1 == if i == 1 {
            nn * a1
        } else {
            0
        }
        &&& t * (n - h) * a2 == if i == 2 {
            nn * a2
        } else {
            0
        }
        &&& t * h * a3 == if i == 3 {
            nn * a3
        } else {
            0
        }
    }) by (nonlinear_arith)
        requires
            t == 0 && h == 0 && i == 0 || t == 0 && h == n && i == 1 || t == n && h == 0 && i == 2
                || t == n && h == n && i == 3,
            n == 1_000_000_000,
            nn == 1_000_000_000_000_000_000,
    ;
    let sum = c[0] + c[1] + c[2] + c[3];
    assert(sum == nn * a[i]);
    assert(c[i] == sum);
    vstd::arithmetic::div_mod::lemma_div_multiples_vanish(ONE as int, sum);
    assert(sum * ONE == ONE * sum);
    vstd::arithmetic::div_mod::lemma_div_basics(sum);
    let w = blend_weights(config, temp, humidity);
    assert(w =~= seq![0int, 0, 0, 0].update(i, ONE as int));
    lemma_pick(
        i,
        config.grasslands.elevation as int,
        config.taiga.elevation as int,
        config.desert.elevation as int,
        config.forest.elevation as int,
    );
    lemma_pick(
        i,
        config.grasslands.relief as int,
        config.taiga.relief as int,
        config.desert.relief as int,
        config.forest.relief as int,
    );
}

/// In between, the ground without noise is the mean of the four biomes' elevations,
/// weighted by how near the climate is to each one's corner and by its abundance, and
/// what noise is multiplied by is the same mean of their reliefs.
pub proof fn land_is_the_mean_of_its_biomes(config: WorldGenConfig, temp: int, humidity: int)
    requires
        config.wf(),
        0 <= temp <= ONE,
        0 <= humidity <= ONE,
    ensures
        ({
            let (cold, dry) = (ONE - temp, ONE - humidity);
            let (g, t, d, f) = (config.grasslands, config.taiga, config.desert, config.forest);
            let grass = cold * dry * g.abundance;
            let taiga = cold * humidity * t.abundance;
            let desert = temp * dry * d.abundance;
            let forest = temp * humidity * f.abundance;
            let whole = grass + taiga + desert + forest;
            let height = grass * g.elevation + taiga * t.elevation + desert * d.elevation + forest
                * f.elevation;
            let relief = grass * g.relief + taiga * t.relief + desert * d.relief + forest
                * f.relief;
            whole > 1_000_000_000_000_000_000_000 ==> {
                &&& -4_001 * whole <= height - shaped(config, 0, temp, humidity, 0) * whole <= 4_001
                    * whole
                &&& -4_001 * whole <= relief - relief_at(config, temp, humidity, 0) * whole <= 4_001
                    * whole
            }
        }),
{
    let c = corner_weights(config, temp, humidity);
    let sum = c[0] + c[1] + c[2] + c[3];
    lemma_rises(config, temp, humidity, 0);
    assert(forall|x: int| #[trigger] scaled(x, 0) == 0) by {
        assert forall|x: int| #[trigger] scaled(x, 0) == 0 by {
            assert(x * 0 == 0);
        }
    }
    if sum > 1_000_000_000_000_000_000_000 {
        let w = blend_weights(config, temp, humidity);
        lemma_mean(
            c,
            w,
            config.grasslands.elevation as int,
            config.taiga.elevation as int,
            config.desert.elevation as int,
            config.forest.elevation as int,
        );
        lemma_mean(
            c,
            w,
            config.grasslands.relief as int,
            config.taiga.relief as int,
            config.desert.relief as int,
            config.forest.relief as int,
        );
    }
}

proof fn lemma_part(c: int, w: int, sum: int, e: int)
    requires
        sum > 0,
        w == (c * ONE) / sum,
        -1_000_000_000_000 <= e <= 1_000_000_000_000,
    ensures
        -1_000_000_000_000 * sum <= sum * (w * e) - ONE * (c * e) <= 1_000_000_000_000 * sum,
{
    let n = c * ONE;
    vstd::arithmetic::div_mod::lemma_fundamental_div_mod(n, sum);
    let r = n % sum;
    assert(sum * (w * e) == n * e - r * e) by (nonlinear_arith)
        requires
            n == sum * w + r,
    ;
    assert(n * e == 1_000_000_000 * (c * e)) by (nonlinear_arith)
        requires
            n == c * 1_000_000_000,
    ;
    assert(-1_000_000_000_000 * sum <= r * e <= 1_000_000_000_000 * sum) by (nonlinear_arith)
        requires
            0 <= r < sum,
            -1_000_000_000_000 <= e <= 1_000_000_000_000,
    ;
}

proof fn lemma_mean(c: Seq<int>, w: Seq<int>, e0: int, e1: int, e2: int, e3: int)
    requires
        c.len() == 4,
        w.len() == 4,
        c[0] + c[1] + c[2] + c[3] > 0,
        forall|i: int|
            0 <= i < 4 ==> #[trigger] w[i] == (c[i] * ONE) / (c[0] + c[1] + c[2] + c[3]),
        -1_000_000_000_000 <= e0 <= 1_000_000_000_000,
        -1_000_000_000_000 <= e1 <= 1_000_000_000_000,
        -1_000_000_000_000 <= e2 <= 1_000_000_000_000,
        -1_000_000_000_000 <= e3 <= 1_000_000_000_000,
    ensures
        ({
            let sum = c[0] + c[1] + c[2] + c[3];
            let total = c[0] * e0 + c[1] * e1 + c[2] * e2 + c[3] * e3;
            -4_001 * sum <= total - mixed(w, e0, e1, e2, e3) * sum <= 4_001 * sum
        }),
{
    let sum = c[0] + c[1] + c[2] + c[3];
    lemma_part(c[0], w[0], sum, e0);
    lemma_part(c[1], w[1], sum, e1);
    lemma_part(c[2], w[2], sum, e2);
    lemma_part(c[3], w[3], sum, e3);
    let m = mixed(w, e0, e1, e2, e3);
    let s = w[0] * e0 + w[1] * e1 + w[2] * e2 + w[3] * e3;
    assert(m * ONE <= s < m * ONE + ONE);
    let d = s - m * ONE;
    let ms = m * sum;
    assert(sum * s == sum * (w[0] * e0) + sum * (w[1] * e1) + sum * (w[2] * e2) + sum * (w[3] * e3))
        by (nonlinear_arith)
        requires
            s == w[0] * e0 + w[1] * e1 + w[2] * e2 + w[3] * e3,
    ;
    assert(1_000_000_000 * ms <= sum * s <= 1_000_000_000 * ms + 1_000_000_000 * sum)
        by (nonlinear_arith)
        requires
            ms == m * sum,
            s == m * 1_000_000_000 + d,
            0 <= d < 1_000_000_000,
            sum > 0,
    ;
}

/// The sea pulls the ground down: by its share of the way from the land to the ocean
/// floor, and the noise with it to a hundredth. Open ocean is the basin whatever the
/// climate, and dry land feels nothing of it.
pub proof fn sea_pulls_the_ground_down(
    config: WorldGenConfig,
    temp: int,
    humidity: int,
    ocean: int,
)
    ensures
        ({
            let land = shaped(config, 0, temp, humidity, 0);
            let down = shaped(config, 0, temp, humidity, ocean) - land;
            let rough = relief_at(config, temp, humidity, 0);
            let smoothed = relief_at(config, temp, humidity, ocean) - rough;
            &&& down * ONE <= (-config.ocean_depth - land) * ocean < (down + 1) * ONE
            &&& smoothed * ONE <= (10_000_000 - rough) * ocean < (smoothed + 1) * ONE
        }),
        shaped(config, 0, temp, humidity, ONE as int) == -config.ocean_depth,
        relief_at(config, temp, humidity, ONE as int) == 10_000_000,
{
    lemma_rises(config, temp, humidity, 0);
    lemma_rises(config, temp, humidity, ocean);
    lemma_rises(config, temp, humidity, ONE as int);
    let e = land_elevation(config, temp, humidity);
    let r = land_relief(config, temp, humidity);
    assert((-config.ocean_depth - e) * 0 == 0 && (10_000_000 - r) * 0 == 0) by (nonlinear_arith);
}

/// The climate swings evenly around its middle: bias shifts it, contrast stretches it,
/// and it stays between zero and one.
pub proof fn remap_shifts_and_stretches(v: int, bias: int, contrast: int)
    ensures
        ({
            let r = remapped(v, bias, contrast);
            let off = r - 500_000_000 - bias;
            &&& 0 <= r <= ONE
            &&& 0 < r < ONE ==> off * ONE <= (v - 500_000_000) * contrast < (off + 1) * ONE
            &&& r == 0 ==> (v - 500_000_000) * contrast < (off + 1) * ONE
            &&& r == ONE ==> off * ONE <= (v - 500_000_000) * contrast
        }),
{
}

/// Noise between minus one and one covers the land mask's range evenly.
pub proof fn noise_covers_the_mask(raw: int)
    ensures
        -ONE <= raw <= ONE ==> 2 * continentalness_of(raw) - 1 <= raw + ONE - 1 <= 2
            * continentalness_of(raw),
        raw <= -ONE ==> continentalness_of(raw) == 0,
        raw >= ONE ==> continentalness_of(raw) == ONE,
{
}

/// Warm latitudes are warmer: with plain settings the temperature is the noise's, half
/// way up, plus the latitude's share of its strength; and the coast is more humid by
/// its share of the coastal humidity, none of it inland.
pub proof fn latitude_warms_and_coasts_are_humid(config: WorldGenConfig, sample: NoiseSample)
    requires
        config.temp_contrast == ONE,
        config.humidity_contrast == ONE,
    ensures
        ({
            let (temp, humidity, land) = climate_of(config, sample);
            let warm = 2 * (temp - config.temp_bias) - sample.temperature - ONE;
            let damp = 2 * (humidity - config.humidity_bias) - sample.humidity - ONE;
            &&& 0 < temp < ONE ==> (warm - 1) * ONE <= 2 * (config.latitude_strength
                * sample.latitude_cos) < (warm + 3) * ONE
            &&& 0 < humidity < ONE ==> (damp - 1) * ONE <= 2 * (config.coastal_humidity * (ONE
                - land)) < (damp + 3) * ONE
            &&& 0 <= temp <= ONE && 0 <= humidity <= ONE && 0 <= land <= ONE
        }),
        climate_of(config, sample).2 == continentalness_of(sample.continent as int),
{
}

/// Bias and contrast apply to what noise, latitude and coast make of the climate: with
/// them the climate is the remap of the plain one.
pub proof fn climate_is_remapped_once(
    config: WorldGenConfig,
    plain: WorldGenConfig,
    sample: NoiseSample,
)
    requires
        plain == (WorldGenConfig {
            temp_bias: 0,
            temp_contrast: ONE,
            humidity_bias: 0,
            humidity_contrast: ONE,
            ..config
        }),
        0 < climate_of(plain, sample).0 < ONE,
        0 < climate_of(plain, sample).1 < ONE,
    ensures
        climate_of(config, sample).0 == remapped(
            climate_of(plain, sample).0,
            config.temp_bias as int,
            config.temp_contrast as int,
        ),
        climate_of(config, sample).1 == remapped(
            climate_of(plain, sample).1,
            config.humidity_bias as int,
            config.humidity_contrast as int,
        ),
        climate_of(config, sample).2 == climate_of(plain, sample).2,
{
}

/// The coast is a ramp: land down to the threshold, open ocean a transition's width
/// below it, and in between in proportion.
pub proof fn coast_is_a_ramp(config: WorldGenConfig, land: int)
    requires
        config.ocean_transition_width > 1_000_000,
    ensures
        ({
            let below = config.sea_level_threshold - land;
            let width = config.ocean_transition_width as int;
            let share = ocean_share(config, land);
            &&& below <= 0 ==> share == 0
            &&& below >= width ==> share == ONE
            &&& 0 <= below <= width ==> share * width <= below * ONE < (share + 1) * width
        }),
{
    let width = config.ocean_transition_width as int;
    let n = (config.sea_level_threshold - land) * ONE;
    vstd::arithmetic::div_mod::lemma_fundamental_div_mod(n, width);
    let q = n / width;
    let r = n % width;
    assert((n <= 0 ==> q <= 0) && (n >= width * 1_000_000_000 ==> q >= 1_000_000_000) && (0 <= n
        <= width * 1_000_000_000 ==> 0 <= q <= 1_000_000_000) && q * width <= n < (q + 1) * width)
        by (nonlinear_arith)
        requires
            n == width * q + r,
            0 <= r < width,
    ;
}

/// High ground is colder: by the lapse rate for each thousand metres that the sea-level
/// climate would raise it, and not at all at or below sea level.
pub proof fn high_ground_is_colder(
    config: WorldGenConfig,
    base: int,
    temp: int,
    humidity: int,
    ocean: int,
)
    requires
        0 <= temp <= ONE,
        0 < config.height_scale,
    ensures
        ({
            let raw = shaped(config, base, temp, humidity, ocean);
            let cold = cooled(config, base, temp, humidity, ocean);
            let metres = scaled(raw, config.height_scale as int);
            let drop = temp - cold;
            &&& 0 <= cold <= temp
            &&& config.temp_lapse <= 0 ==> drop == 0
            &&& raw <= 0 ==> drop == 0
            &&& config.temp_lapse > 0 && raw > 0 && cold > 0 ==> drop * 1000 * ONE
                <= config.temp_lapse * metres < (drop + 1) * 1000 * ONE
            &&& config.temp_lapse > 0 && raw > 0 && cold == 0 ==> config.temp_lapse * metres >= temp
                * 1000 * ONE
        }),
{
    let raw = shaped(config, base, temp, humidity, ocean);
    let h = config.height_scale as int;
    assert(raw <= 0 ==> raw * h <= 0) by (nonlinear_arith)
        requires
            h > 0,
    ;
    assert(raw > 0 ==> raw * h > 0) by (nonlinear_arith)
        requires
            h > 0,
    ;
    let metres = scaled(raw, h);
    let l = config.temp_lapse as int;
    assert(l > 0 && metres >= 0 ==> l * metres >= 0) by (nonlinear_arith);
    assert(l * 0 == 0);
}

/// The natural ground has the height of its own climate: shaped by the cooled
/// temperature and the humidity it reports, with the sea's share of its place.
pub proof fn ground_fits_its_climate(config: WorldGenConfig, sample: NoiseSample)
    requires
        config.height_scale > 0,
    ensures
        ({
            let (raw, temp, humidity) = natural_of(config, sample);
            let (sea_level_temp, sea_level_humidity, land) = climate_of(config, sample);
            &&& humidity == sea_level_humidity
            &&& 0 <= temp <= sea_level_temp
            &&& config.temp_lapse <= 0 ==> temp == sea_level_temp
            &&& raw == shaped(
                config,
                sample.base as int,
                temp,
                humidity,
                ocean_share(config, land),
            )
        }),
{
    let (temp, humidity, land) = climate_of(config, sample);
    high_ground_is_colder(
        config,
        sample.base as int,
        temp,
        humidity,
        ocean_share(config, land),
    );
}

/// Half under water is ocean; on land the two halves of temperature and humidity give
/// the four biomes.
pub proof fn climate_names_the_biome(config: WorldGenConfig, sample: NoiseSample)
    ensures
        ({
            let (temp, humidity, land) = climate_of(config, sample);
            let biome = biome_of(config, sample);
            let (hot, wet) = (temp > 500_000_000, humidity > 500_000_000);
            &&& biome is Ocean <==> ocean_share(config, land) >= 500_000_000
            &&& biome is Forest ==> hot && wet
            &&& biome is Desert ==> hot && !wet
            &&& biome is Taiga ==> !hot && wet
            &&& biome is Grasslands ==> !hot && !wet
        }),
{
}

/// Terrain features tighten in proportion to the horizontal scale, the finest
/// twenty-five times as tight as the broadest, and each layer counts less than the one
/// before it.
pub proof fn layers_tighten_with_the_scale(config: WorldGenConfig)
    requires
        config.wf(),
        config.horizontal_scale >= 0,
    ensures
        ({
            let l = layers_of(config);
            let hs = config.horizontal_scale as int;
            &&& l.len() == 8
            &&& l[0].frequency * 100 <= 8 * hs < (l[0].frequency + 1) * 100
            &&& l[1].frequency * 5 <= hs < (l[1].frequency + 1) * 5
            &&& l[2].frequency * 2 <= hs < (l[2].frequency + 1) * 2
            &&& l[3].frequency == hs
            &&& l[4].frequency == 2 * hs
            &&& l[0].amplitude > l[1].amplitude > l[2].amplitude > l[3].amplitude > l[4].amplitude
                > 0
            &&& l[0].amplitude + l[1].amplitude + l[2].amplitude + l[3].amplitude + l[4].amplitude
                == 10_650_000_000
            &&& l[5].amplitude == ONE && l[6].amplitude == ONE && l[7].amplitude == ONE
            &&& l[5].frequency == l[6].frequency
        }),
{
}

/// Climate zones grow with the biome size and continents with theirs; continents do not
/// follow the horizontal scale.
pub proof fn larger_worlds_vary_slower(config: WorldGenConfig)
    requires
        config.wf(),
        config.biome_size > 50_000_000,
        config.continent_size > 50_000_000,
    ensures
        ({
            let l = layers_of(config);
            let climate = scaled(60_000_000, config.horizontal_scale as int);
            let (b, c) = (config.biome_size as int, config.continent_size as int);
            &&& l[5].frequency * b <= climate * ONE < (l[5].frequency + 1) * b
            &&& l[7].frequency * c <= 30_000_000 * ONE < (l[7].frequency + 1) * c
        }),
{
    let climate = scaled(60_000_000, config.horizontal_scale as int);
    lemma_per_size(climate, config.biome_size as int);
    lemma_per_size(30_000_000, config.continent_size as int);
}

proof fn lemma_per_size(num: int, size: int)
    requires
        size > 50_000_000,
        -100_000_000_000_000 <= num <= 100_000_000_000_000,
    ensures
        per_size(num, size) * size <= num * ONE < (per_size(num, size) + 1) * size,
        -2_000_000_000_000_001 <= per_size(num, size) <= 2_000_000_000_000_001,
{
    let n = num * ONE;
    vstd::arithmetic::div_mod::lemma_fundamental_div_mod(n, size);
    let q = n / size;
    let r = n % size;
    assert(q * size <= n < (q + 1) * size && -2_000_000_000_000_001 <= q <= 2_000_000_000_000_001)
        by (nonlinear_arith)
        requires
            n == size * q + r,
            0 <= r < size,
            size > 50_000_000,
            -100_000_000_000_000_000_000_000 <= n <= 100_000_000_000_000_000_000_000,
    ;
}

/// Two places are sampled as far apart in a layer's noise as they lie in the world,
/// times the layer's frequency per thousand metres; the shift of the layer drops out.
pub proof fn noise_is_sampled_to_scale(plan: LayerPlan, x: int, z: int, dx: int, dz: int)
    ensures
        ({
            let a = noise_coordinates(plan, x, z);
            let b = noise_coordinates(plan, x + dx, z + dz);
            let f = plan.frequency as int;
            &&& (b.0 - a.0 - 2) * 1000 * ONE <= dx * f <= (b.0 - a.0 + 2) * 1000 * ONE
            &&& (b.1 - a.1 - 2) * 1000 * ONE <= dz * f <= (b.1 - a.1 + 2) * 1000 * ONE
        }),
{
    let f = plan.frequency as int;
    assert((x + dx) * f == x * f + dx * f && (z + dz) * f == z * f + dz * f) by (nonlinear_arith);
}

/// Between two stops of a palette the mix stands as far up as the height does.
pub proof fn colours_mix_in_proportion(m: PaletteMix, height: int, palette: Seq<TerrainStop>)
    requires
        palette.len() > 0,
        mixes(m, height, palette),
        palette[0].height < height < palette[palette.len() - 1].height,
    ensures
        ({
            let low = palette[m.lower as int].height as int;
            let gap = palette[m.upper as int].height - low;
            &&& m.upper == m.lower + 1
            &&& 0 < height - low <= gap
            &&& m.t * gap <= (height - low) * ONE < (m.t + 1) * gap
        }),
{
    let low = palette[m.lower as int].height as int;
    let gap = palette[m.upper as int].height - low;
    let n = (height - low) * ONE;
    vstd::arithmetic::div_mod::lemma_fundamental_div_mod(n, gap);
    let q = n / gap;
    let r = n % gap;
    assert(q * gap <= n < (q + 1) * gap) by (nonlinear_arith)
        requires
            n == gap * q + r,
            0 <= r < gap,
    ;
}

/// Sizes divide: twice the size halves the number, and sizes below a twentieth count as
/// a twentieth.
pub proof fn sizes_divide(num: int, size: int)
    requires
        -100_000_000_000_000 <= num <= 100_000_000_000_000,
    ensures
        size > 50_000_000 ==> per_size(num, size) * size <= num * 1_000_000_000 < (per_size(
            num,
            size,
        ) + 1) * size,
        size <= 50_000_000 ==> per_size(num, size) == 20 * num,
{
    if size > 50_000_000 {
        lemma_per_size(num, size);
    }
}

/// One seed more shifts a layer's noise by 1337.42, around a stretch of 100 000; a layer
/// of seed zero is not shifted along the first axis.
pub proof fn seeds_shift_the_noise(plan: LayerPlan, next: LayerPlan, x: int, z: int)
    requires
        next.seed == plan.seed + 1,
        next.frequency == plan.frequency,
    ensures
        ({
            let a = noise_coordinates(plan, x, z).0;
            let b = noise_coordinates(next, x, z).0;
            let origin = noise_coordinates(plan, 0, z).0;
            &&& b - a == 1_337_420_000_000 || b - a == 1_337_420_000_000 - 100_000_000_000_000
            &&& 0 <= origin < 100_000_000_000_000
            &&& plan.seed == 0 ==> origin == 0
        }),
{
    let p = plan.seed * 1_337_420_000_000;
    let q = next.seed * 1_337_420_000_000;
    assert(q == p + 1_337_420_000_000);
    let (a, b) = (p % 100_000_000_000_000, q % 100_000_000_000_000);
    assert(b - a == 1_337_420_000_000 || b - a == 1_337_420_000_000 - 100_000_000_000_000);
    assert(scaled(0, plan.frequency as int) == 0) by {
        assert(0 * plan.frequency == 0);
    }
}

/// The ground has the humidity of its climate and its temperature cooled by its height, and
/// is shaped by what it is then.
pub proof fn ground_is_shaped_by_its_cooled_climate(config: WorldGenConfig, sample: NoiseSample)
    ensures
        ({
            let (height, temp, humidity) = natural_of(config, sample);
            let (warmth, moisture, land) = climate_of(config, sample);
            let ocean = ocean_share(config, land);
            &&& humidity == moisture
            &&& temp == cooled(config, sample.base as int, warmth, moisture, ocean)
            &&& height == shaped(config, sample.base as int, temp, humidity, ocean)
        }),
{
}

}
