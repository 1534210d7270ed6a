//! Procedural terrain: how noise becomes land. Multi-octave noise is shaped by a
//! temperature and humidity field, sunk where the land/sea mask says ocean, and
//! coloured from per-biome palettes. One evaluation of the rules feeds both the
//! mesh (height and colour) and the ground query of the landing gear.
//!
//! All quantities have nine decimals; noise samples and the latitude's cosine
//! come in as such.

use super::chunk::{default_bands, lod_bands, LodBand};
use super::runway_fixtures::Colour;
use crate::fixed::{
    blend, blend_stays_between, clamp, clamped, floor_div, root, scale, scaled, sqrt_floor, ONE,
};
use vstd::prelude::*;

verus! {

/// Per-biome terrain shaping: `elevation` is the base offset (raw units) the
/// biome sits at, `relief` the amplitude multiplier on the noise sum, and
/// `abundance` a weight on how strongly this biome dominates the blend. The four
/// land biomes sit at the corners of the temperature/humidity square.
#[derive(Clone, Copy, Debug, PartialEq, Eq, Structural)]
pub struct BiomeShape {
    pub elevation: i64,
    pub relief: i64,
    pub abundance: i64,
}

/// Editable world-generation settings.
#[derive(Clone, Copy, Debug, PartialEq, Eq)]
pub struct WorldGenConfig {
    pub seed: u32,
    /// Horizontal feature frequency: higher is tighter, more rugged terrain.
    pub horizontal_scale: i64,
    /// Vertical relief: metres per raw unit.
    pub height_scale: i64,
    /// View radius in chunks.
    pub render_distance: i32,
    /// Chunk builds started per frame.
    pub max_chunks_per_frame: usize,
    /// LOD bands, ascending; mirrored live into the chunk manager.
    pub lod_levels: [LodBand; 4],
    /// Sea level on the continentalness scale.
    pub sea_level_threshold: i64,
    /// Width of the land-to-ocean blend, in continentalness.
    pub ocean_transition_width: i64,
    /// Ocean basin depth in raw units.
    pub ocean_depth: i64,
    /// Continent size multiplier.
    pub continent_size: i64,
    /// Humidity added at the coast, decaying inland.
    pub coastal_humidity: i64,
    /// Biome size multiplier.
    pub biome_size: i64,
    pub desert: BiomeShape,
    pub grasslands: BiomeShape,
    pub forest: BiomeShape,
    pub taiga: BiomeShape,
    /// Climate-axis remap: `bias` shifts the map along the axis, `contrast` scales
    /// the spread around the midpoint.
    pub temp_bias: i64,
    pub temp_contrast: i64,
    pub humidity_bias: i64,
    pub humidity_contrast: i64,
    /// Temperature drop per 1000 m of altitude; zero disables it.
    pub temp_lapse: i64,
    /// Temperature swing between warm and cold latitude bands.
    pub latitude_strength: i64,
    /// Distance from one warm band to the next, in nanometres.
    pub latitude_band: i64,
}

/// The same land: the settings agree in all that the generator reads. How far and
/// how fast chunks are streamed, and their levels of detail, are not part of it.
pub open spec fn same_land(a: WorldGenConfig, b: WorldGenConfig) -> bool {
    a == (WorldGenConfig {
        render_distance: a.render_distance,
        max_chunks_per_frame: a.max_chunks_per_frame,
        lod_levels: a.lod_levels,
        ..b
    })
}

impl WorldGenConfig {
    /// Whether the settings make the same land.
    pub fn makes_same_land(&self, other: &WorldGenConfig) -> (same: bool)
        ensures
            same == same_land(*self, *other),
    {
        self.seed == other.seed && self.horizontal_scale == other.horizontal_scale
            && self.height_scale == other.height_scale && self.sea_level_threshold
            == other.sea_level_threshold && self.ocean_transition_width
            == other.ocean_transition_width && self.ocean_depth == other.ocean_depth
            && self.continent_size == other.continent_size && self.coastal_humidity
            == other.coastal_humidity && self.biome_size == other.biome_size && self.desert
            == other.desert && self.grasslands == other.grasslands && self.forest == other.forest
            && self.taiga == other.taiga && self.temp_bias == other.temp_bias
            && self.temp_contrast == other.temp_contrast && self.humidity_bias
            == other.humidity_bias && self.humidity_contrast == other.humidity_contrast
            && self.temp_lapse == other.temp_lapse && self.latitude_strength
            == other.latitude_strength && self.latitude_band == other.latitude_band
    }
}

/// The settings of a new world.
pub open spec fn is_default_world(c: WorldGenConfig) -> bool {
    &&& c.seed == 3
    &&& c.horizontal_scale == 5_000_000_000
    &&& c.height_scale == 220_000_000_000
    &&& c.render_distance == 28
    &&& c.max_chunks_per_frame == 3
    &&& c.lod_levels@ == default_bands()
    &&& c.sea_level_threshold == 450_000_000
    &&& c.ocean_transition_width == 300_000_000
    &&& c.ocean_depth == 2_500_000_000
    &&& c.continent_size == 1_000_000_000
    &&& c.coastal_humidity == 300_000_000
    &&& c.biome_size == 1_000_000_000
    &&& c.desert == (BiomeShape {
        elevation: 300_000_000,
        relief: 5_000_000,
        abundance: 300_000_000,
    })
    &&& c.grasslands == (BiomeShape {
        elevation: 40_000_000,
        relief: 20_000_000,
        abundance: 1_000_000_000,
    })
    &&& c.forest == (BiomeShape {
        elevation: 500_000_000,
        relief: 50_000_000,
        abundance: 1_000_000_000,
    })
    &&& c.taiga == (BiomeShape {
        elevation: 6_500_000_000,
        relief: 500_000_000,
        abundance: 500_000_000,
    })
    &&& c.temp_bias == -150_000_000
    &&& c.temp_contrast == 1_000_000_000
    &&& c.humidity_bias == -150_000_000
    &&& c.humidity_contrast == 1_000_000_000
    &&& c.temp_lapse == 250_000_000
    &&& c.latitude_strength == 300_000_000
    &&& c.latitude_band == 60_000_000_000_000
}

impl Default for WorldGenConfig {
    fn default() -> (config: Self)
        ensures
            is_default_world(config),
            config.wf(),
    {
        WorldGenConfig {
            seed: 3,
            horizontal_scale: 5_000_000_000,
            height_scale: 220_000_000_000,
            render_distance: 28,
            max_chunks_per_frame: 3,
            lod_levels: lod_bands(),
            sea_level_threshold: 450_000_000,
            ocean_transition_width: 300_000_000,
            ocean_depth: 2_500_000_000,
            continent_size: 1_000_000_000,
            coastal_humidity: 300_000_000,
            biome_size: 1_000_000_000,
            desert: BiomeShape {
                elevation: 300_000_000,
                relief: 5_000_000,
                abundance: 300_000_000,
            },
            grasslands: BiomeShape {
                elevation: 40_000_000,
                relief: 20_000_000,
                abundance: 1_000_000_000,
            },
            forest: BiomeShape {
                elevation: 500_000_000,
                relief: 50_000_000,
                abundance: 1_000_000_000,
            },
            taiga: BiomeShape {
                elevation: 6_500_000_000,
                relief: 500_000_000,
                abundance: 500_000_000,
            },
            temp_bias: -150_000_000,
            temp_contrast: 1_000_000_000,
            humidity_bias: -150_000_000,
            humidity_contrast: 1_000_000_000,
            temp_lapse: 250_000_000,
            latitude_strength: 300_000_000,
            latitude_band: 60_000_000_000_000,
        }
    }
}

/// Magnitude at most `limit`.
pub open spec fn within(v: int, limit: int) -> bool {
    -limit <= v <= limit
}

impl BiomeShape {
    /// The numbers can be blended without leaving the range of the arithmetic.
    pub open spec fn wf(self) -> bool {
        &&& within(self.elevation as int, 1_000_000_000_000)
        &&& within(self.relief as int, 1_000_000_000_000)
        &&& 0 <= self.abundance <= 100_000_000_000
    }
}

impl WorldGenConfig {
    /// The numbers can be combined without leaving the range of the arithmetic.
    pub open spec fn wf(self) -> bool {
        &&& self.desert.wf()
        &&& self.grasslands.wf()
        &&& self.forest.wf()
        &&& self.taiga.wf()
        &&& within(self.ocean_depth as int, 1_000_000_000_000)
        &&& within(self.height_scale as int, 10_000_000_000_000)
        &&& within(self.horizontal_scale as int, 1_000_000_000_000_000)
        &&& within(self.temp_lapse as int, 1_000_000_000_000)
        &&& within(self.temp_bias as int, 1_000_000_000_000)
        &&& within(self.temp_contrast as int, 1_000_000_000_000)
        &&& within(self.humidity_bias as int, 1_000_000_000_000)
        &&& within(self.humidity_contrast as int, 1_000_000_000_000)
        &&& within(self.coastal_humidity as int, 1_000_000_000_000)
        &&& within(self.latitude_strength as int, 1_000_000_000_000)
        &&& within(self.sea_level_threshold as int, 1_000_000_000_000)
    }
}

/// One noise layer: its seed, its horizontal frequency and its amplitude.
#[derive(Clone, Copy, Debug, PartialEq, Eq, Structural)]
pub struct LayerPlan {
    pub seed: u32,
    pub frequency: i64,
    pub amplitude: i64,
}

/// How far a layer is shifted within its noise, so that layers seeded alike do not
/// line up: it follows from the seed and stays below 100,000.
pub open spec fn layer_offset(seed: int) -> int {
    (seed * 1_337_420_000_000) % 100_000_000_000_000
}

/// Where a layer's noise is sampled for a place of the world (m).
pub open spec fn noise_coordinates(plan: LayerPlan, x: int, z: int) -> (int, int) {
    let offset = layer_offset(plan.seed as int);
    (
        scaled(x, plan.frequency as int) / 1000 + offset,
        scaled(z, plan.frequency as int) / 1000 + root(offset * ONE) + 202_994_000_000_000,
    )
}

impl LayerPlan {
    /// Where the layer's noise is sampled for a place of the world (m).
    pub fn noise_point(&self, x: i64, z: i64) -> (at: (i128, i128))
        ensures
            at.0 == noise_coordinates(*self, x as int, z as int).0,
            at.1 == noise_coordinates(*self, x as int, z as int).1,
    {
        let offset: i128 = self.seed as i128 * 1_337_420_000_000 % 100_000_000_000_000;
        let side: i64 = sqrt_floor(offset * 1_000_000_000);
        (
            floor_div(scale(x, self.frequency), 1000) + offset,
            floor_div(scale(z, self.frequency), 1000) + side as i128 + 202_994_000_000_000,
        )
    }
}

/// `num / max(size, 0.05)` for a size multiplier.
pub open spec fn per_size(num: int, size: int) -> int {
    (num * ONE) / (if size > 50_000_000 {
        size
    } else {
        50_000_000
    })
}

/// The noise layers of a world: five of terrain, broad features first, then
/// temperature, humidity and the land/sea mask. Climate varies with the biome
/// size; continents do not follow the horizontal scale.
pub open spec fn layers_of(config: WorldGenConfig) -> Seq<LayerPlan> {
    let hs = config.horizontal_scale as int;
    let climate = per_size(scaled(60_000_000, hs), config.biome_size as int) as i64;
    seq![
        LayerPlan {
            seed: config.seed,
            frequency: scaled(80_000_000, hs) as i64,
            amplitude: 4_500_000_000,
        },
        LayerPlan {
            seed: config.seed,
            frequency: scaled(200_000_000, hs) as i64,
            amplitude: 3_500_000_000,
        },
        LayerPlan {
            seed: (config.seed + 100) as u32,
            frequency: scaled(500_000_000, hs) as i64,
            amplitude: 1_750_000_000,
        },
        LayerPlan {
            seed: (config.seed + 200) as u32,
            frequency: scaled(1_000_000_000, hs) as i64,
            amplitude: 500_000_000,
        },
        LayerPlan {
            seed: (config.seed + 300) as u32,
            frequency: scaled(2_000_000_000, hs) as i64,
            amplitude: 400_000_000,
        },
        LayerPlan {
            seed: (config.seed + 400) as u32,
            frequency: climate,
            amplitude: 1_000_000_000,
        },
        LayerPlan {
            seed: (config.seed + 500) as u32,
            frequency: climate,
            amplitude: 1_000_000_000,
        },
        LayerPlan {
            seed: (config.seed + 600) as u32,
            frequency: per_size(30_000_000, config.continent_size as int) as i64,
            amplitude: 1_000_000_000,
        },
    ]
}

fn divide_by_size(num: i64, size: i64) -> (r: i64)
    requires
        within(num as int, 100_000_000_000_000),
    ensures
        r == per_size(num as int, size as int),
{
    let d: i128 = if size > 50_000_000 {
        size as i128
    } else {
        50_000_000
    };
    let n: i128 = num as i128 * 1_000_000_000;
    let q: i128 = floor_div(n, d);
    proof {
        lemma_quotient_bound(n as int, d as int);
    }
    q as i64
}

proof fn lemma_quotient_bound(n: int, d: int)
    requires
        within(n, 100_000_000_000_000_000_000_000),
        d >= 50_000_000,
    ensures
        -2_000_000_000_000_001 <= n / d <= 2_000_000_000_000_001,
{
    vstd::arithmetic::div_mod::lemma_fundamental_div_mod(n, d);
    let q = n / d;
    let r = n % d;
    assert(0 <= r < d);
    assert(-2_000_000_000_000_001 <= q <= 2_000_000_000_000_001) by (nonlinear_arith)
        requires
            n == d * q + r,
            0 <= r < d,
            d >= 50_000_000,
            -100_000_000_000_000_000_000_000 <= n <= 100_000_000_000_000_000_000_000,
    ;
}

proof fn lemma_scaled_bound(a: int, b: int, x: int, y: int)
    requires
        within(a, x),
        within(b, y),
        x >= 0,
        y >= 0,
    ensures
        within(a * b, x * y),
        -(x * y) / 1_000_000_000 - 1 <= scaled(a, b) <= (x * y) / 1_000_000_000,
{
    assert(-(x * y) <= a * b <= x * y) by (nonlinear_arith)
        requires
            -x <= a <= x,
            -y <= b <= y,
    ;
}

/// The noise layers to sample.
pub fn layer_plans(config: &WorldGenConfig) -> (layers: Vec<LayerPlan>)
    requires
        config.wf(),
        config.seed + 600 <= u32::MAX,
    ensures
        layers@ == layers_of(*config),
{
    let hs: i64 = config.horizontal_scale;
    proof {
        lemma_scaled_bound(60_000_000, hs as int, 60_000_000, 1_000_000_000_000_000);
        lemma_scaled_bound(80_000_000, hs as int, 80_000_000, 1_000_000_000_000_000);
        lemma_scaled_bound(200_000_000, hs as int, 200_000_000, 1_000_000_000_000_000);
        lemma_scaled_bound(500_000_000, hs as int, 500_000_000, 1_000_000_000_000_000);
        lemma_scaled_bound(1_000_000_000, hs as int, 1_000_000_000, 1_000_000_000_000_000);
        lemma_scaled_bound(2_000_000_000, hs as int, 2_000_000_000, 1_000_000_000_000_000);
    }
    let climate: i64 = divide_by_size(scale(60_000_000, hs) as i64, config.biome_size);
    let continent: i64 = divide_by_size(30_000_000, config.continent_size);
    let layers: Vec<LayerPlan> = vec![
        LayerPlan {
            seed: config.seed,
            frequency: scale(80_000_000, hs) as i64,
            amplitude: 4_500_000_000,
        },
        LayerPlan {
            seed: config.seed,
            frequency: scale(200_000_000, hs) as i64,
            amplitude: 3_500_000_000,
        },
        LayerPlan {
            seed: config.seed + 100,
            frequency: scale(500_000_000, hs) as i64,
            amplitude: 1_750_000_000,
        },
        LayerPlan {
            seed: config.seed + 200,
            frequency: scale(1_000_000_000, hs) as i64,
            amplitude: 500_000_000,
        },
        LayerPlan {
            seed: config.seed + 300,
            frequency: scale(2_000_000_000, hs) as i64,
            amplitude: 400_000_000,
        },
        LayerPlan { seed: config.seed + 400, frequency: climate, amplitude: 1_000_000_000 },
        LayerPlan { seed: config.seed + 500, frequency: climate, amplitude: 1_000_000_000 },
        LayerPlan { seed: config.seed + 600, frequency: continent, amplitude: 1_000_000_000 },
    ];
    assert(layers@ =~= layers_of(*config));
    layers
}

/// What the noise gives at one point: the sum of the terrain layers, the raw
/// temperature, humidity and land/sea samples, and the cosine of the latitude.
#[derive(Clone, Copy, Debug, PartialEq, Eq, Structural)]
pub struct NoiseSample {
    pub base: i64,
    pub temperature: i64,
    pub humidity: i64,
    pub continent: i64,
    pub latitude_cos: i64,
}

impl NoiseSample {
    /// Samples of the size that noise can have.
    pub open spec fn wf(self) -> bool {
        &&& within(self.base as int, 100_000_000_000)
        &&& within(self.temperature as int, 10_000_000_000)
        &&& within(self.humidity as int, 10_000_000_000)
        &&& within(self.continent as int, 10_000_000_000)
        &&& within(self.latitude_cos as int, 1_000_000_000)
    }
}

/// Remap of a climate value: spread around the midpoint scaled by `contrast`,
/// shifted by `bias`, moved back into `0..=1`.
pub open spec fn remapped(v: int, bias: int, contrast: int) -> int {
    clamped(500_000_000 + scaled(v - 500_000_000, contrast) + bias, 0, ONE as int)
}

/// A noise sample in `-1..=1` as a value in `0..=1`.
pub open spec fn normalised(raw: int) -> int {
    (raw + ONE) / 2
}

/// Land/sea mask: low is ocean, high is continental interior.
pub open spec fn continentalness_of(raw: int) -> int {
    clamped(normalised(raw), 0, ONE as int)
}

/// Temperature, humidity and land/sea mask at a point, at sea level.
pub open spec fn climate_of(config: WorldGenConfig, sample: NoiseSample) -> (int, int, int) {
    let land = continentalness_of(sample.continent as int);
    let latitude = scaled(config.latitude_strength as int, sample.latitude_cos as int);
    let coastal = scaled(config.coastal_humidity as int, ONE - land);
    (
        remapped(
            normalised(sample.temperature as int) + latitude,
            config.temp_bias as int,
            config.temp_contrast as int,
        ),
        remapped(
            normalised(sample.humidity as int) + coastal,
            config.humidity_bias as int,
            config.humidity_contrast as int,
        ),
        land,
    )
}

/// How strongly a point is open ocean: zero on land, one in full sea, ramping
/// across the transition below the sea-level threshold.
pub open spec fn ocean_share(config: WorldGenConfig, land: int) -> int {
    let width = if config.ocean_transition_width > 1_000_000 {
        config.ocean_transition_width as int
    } else {
        1_000_000
    };
    clamped(((config.sea_level_threshold - land) * ONE) / width, 0, ONE as int)
}

/// Unnormalised blend weights, in the order grasslands, taiga, desert, forest:
/// the bilinear corner weights of the climate square times each abundance.
pub open spec fn corner_weights(config: WorldGenConfig, temp: int, humidity: int) -> Seq<int> {
    seq![
        (ONE - temp) * (ONE - humidity) * config.grasslands.abundance,
        (ONE - temp) * humidity * config.taiga.abundance,
        temp * (ONE - humidity) * config.desert.abundance,
        temp * humidity * config.forest.abundance,
    ]
}

/// Blend weights of grasslands, taiga, desert and forest: the corner weights
/// divided by their sum, or an even split where that sum vanishes.
pub open spec fn blend_weights(config: WorldGenConfig, temp: int, humidity: int) -> Seq<int> {
    let c = corner_weights(config, temp, humidity);
    let sum = c[0] + c[1] + c[2] + c[3];
    if sum <= 1_000_000_000_000_000_000_000 {
        seq![250_000_000, 250_000_000, 250_000_000, 250_000_000]
    } else {
        seq![(c[0] * ONE) / sum, (c[1] * ONE) / sum, (c[2] * ONE) / sum, (c[3] * ONE) / sum]
    }
}

/// Weighted sum of one number of each land biome.
pub open spec fn mixed(w: Seq<int>, grass: int, taiga: int, desert: int, forest: int) -> int {
    (w[0] * grass + w[1] * taiga + w[2] * desert + w[3] * forest) / (ONE as int)
}

/// Relief of open ocean, whatever the land around it: 0.01.
pub const OCEAN_RELIEF: i64 = 10_000_000;

/// Raw height from the noise sum, the climate and the ocean share: biome
/// elevation and relief blended, each pulled toward the ocean basin and the flat
/// sea floor.
pub open spec fn shaped(
    config: WorldGenConfig,
    base: int,
    temp: int,
    humidity: int,
    ocean: int,
) -> int {
    let w = blend_weights(config, temp, humidity);
    let land_elevation = mixed(
        w,
        config.grasslands.elevation as int,
        config.taiga.elevation as int,
        config.desert.elevation as int,
        config.forest.elevation as int,
    );
    let land_relief = mixed(
        w,
        config.grasslands.relief as int,
        config.taiga.relief as int,
        config.desert.relief as int,
        config.forest.relief as int,
    );
    let elevation = land_elevation + scaled(-config.ocean_depth - land_elevation, ocean);
    let relief = land_relief + scaled(OCEAN_RELIEF - land_relief, ocean);
    scaled(base, relief) + elevation
}

/// Temperature after altitude cooling: the climate's, less the lapse rate times
/// the height that the sea-level climate gives.
pub open spec fn cooled(config: WorldGenConfig, base: int, temp: int, humidity: int, ocean: int) -> int {
    if config.temp_lapse > 0 {
        let height = scaled(
            shaped(config, base, temp, humidity, ocean),
            config.height_scale as int,
        );
        let altitude = if height > 0 {
            height
        } else {
            0
        };
        clamped(temp - scaled(config.temp_lapse as int, altitude) / 1000, 0, ONE as int)
    } else {
        temp
    }
}

/// Raw height, temperature and humidity of the natural ground.
pub open spec fn natural_of(config: WorldGenConfig, sample: NoiseSample) -> (int, int, int) {
    let (temp_base, humidity, land) = climate_of(config, sample);
    let ocean = ocean_share(config, land);
    let temp = cooled(config, sample.base as int, temp_base, humidity, ocean);
    (shaped(config, sample.base as int, temp, humidity, ocean), temp, humidity)
}

/// Remaps a climate value in `0..=1`; identity for no bias and contrast one.
pub fn remap_axis(v: i64, bias: i64, contrast: i64) -> (r: i64)
    requires
        within(v as int, 1_000_000_000_000_000),
        within(bias as int, 1_000_000_000_000),
        within(contrast as int, 1_000_000_000_000),
    ensures
        r == remapped(v as int, bias as int, contrast as int),
        0 <= r <= ONE,
{
    let spread: i128 = scale(v - 500_000_000, contrast);
    proof {
        lemma_scaled_bound(
            v - 500_000_000,
            contrast as int,
            1_000_001_000_000_000,
            1_000_000_000_000,
        );
    }
    clamp(500_000_000 + spread + bias as i128, 0, 1_000_000_000)
}

/// Without bias and with contrast one the remap leaves a climate value alone.
pub proof fn remap_is_identity(v: int)
    requires
        0 <= v <= ONE,
    ensures
        remapped(v, 0, ONE as int) == v,
{
}

fn halved(raw: i64) -> (r: i64)
    requires
        within(raw as int, 10_000_000_000),
    ensures
        r == normalised(raw as int),
        within(r as int, 6_000_000_000),
{
    floor_div(raw as i128 + 1_000_000_000, 2) as i64
}

/// Climate plus the land/sea mask at a point: temperature, humidity and
/// continentalness. Temperature gets the latitude band, humidity a coastal boost,
/// then both pass through the axis remap.
pub fn climate_and_continent(config: &WorldGenConfig, sample: &NoiseSample) -> (r: (i64, i64, i64))
    requires
        config.wf(),
        sample.wf(),
    ensures
        (r.0 as int, r.1 as int, r.2 as int) == climate_of(*config, *sample),
        0 <= r.0 <= ONE,
        0 <= r.1 <= ONE,
        0 <= r.2 <= ONE,
{
    let land: i64 = clamp(halved(sample.continent) as i128, 0, 1_000_000_000);
    proof {
        lemma_scaled_bound(
            config.latitude_strength as int,
            sample.latitude_cos as int,
            1_000_000_000_000,
            1_000_000_000,
        );
        lemma_scaled_bound(
            config.coastal_humidity as int,
            ONE - land,
            1_000_000_000_000,
            1_000_000_000,
        );
    }
    let latitude: i64 = scale(config.latitude_strength, sample.latitude_cos) as i64;
    let coastal: i64 = scale(config.coastal_humidity, 1_000_000_000 - land) as i64;
    (
        remap_axis(halved(sample.temperature) + latitude, config.temp_bias, config.temp_contrast),
        remap_axis(halved(sample.humidity) + coastal, config.humidity_bias, config.humidity_contrast),
        land,
    )
}

/// How strongly a point is open ocean, from the land/sea mask.
pub fn ocean_factor(config: &WorldGenConfig, land: i64) -> (ocean: i64)
    requires
        config.wf(),
        0 <= land <= ONE,
    ensures
        ocean == ocean_share(*config, land as int),
        0 <= ocean <= ONE,
{
    let width: i128 = if config.ocean_transition_width > 1_000_000 {
        config.ocean_transition_width as i128
    } else {
        1_000_000
    };
    let n: i128 = (config.sea_level_threshold as i128 - land as i128) * 1_000_000_000;
    let q: i128 = floor_div(n, width);
    clamp(q, 0, 1_000_000_000)
}

/// The four climate biomes plus open water.
#[derive(Debug, Clone, Copy, PartialEq, Eq, Structural)]
pub enum Biome {
    Desert,
    Grasslands,
    Taiga,
    Forest,
    Ocean,
}

/// The biome of a climate: ocean from a share of one half on; on land by the
/// climate square's quadrant.
pub open spec fn biome_of(config: WorldGenConfig, sample: NoiseSample) -> Biome {
    let (temp, humidity, land) = climate_of(config, sample);
    if ocean_share(config, land) >= 500_000_000 {
        Biome::Ocean
    } else if temp > 500_000_000 {
        if humidity > 500_000_000 {
            Biome::Forest
        } else {
            Biome::Desert
        }
    } else if humidity > 500_000_000 {
        Biome::Taiga
    } else {
        Biome::Grasslands
    }
}

/// Biome at a point.
pub fn get_biome(config: &WorldGenConfig, sample: &NoiseSample) -> (biome: Biome)
    requires
        config.wf(),
        sample.wf(),
    ensures
        biome == biome_of(*config, *sample),
{
    let (temp, humidity, land) = climate_and_continent(config, sample);
    if ocean_factor(config, land) >= 500_000_000 {
        return Biome::Ocean;
    }
    match (temp > 500_000_000, humidity > 500_000_000) {
        (true, true) => Biome::Forest,
        (true, false) => Biome::Desert,
        (false, false) => Biome::Grasslands,
        (false, true) => Biome::Taiga,
    }
}

/// Raised sea level never turns sea into land: the ocean share grows with the
/// threshold and shrinks with continentalness.
pub proof fn ocean_share_is_monotone(config: WorldGenConfig, low: int, high: int)
    requires
        low <= high,
    ensures
        ocean_share(config, high) <= ocean_share(config, low),
        0 <= ocean_share(config, low) <= ONE,
        low >= config.sea_level_threshold ==> ocean_share(config, low) == 0,
{
    let width = if config.ocean_transition_width > 1_000_000 {
        config.ocean_transition_width as int
    } else {
        1_000_000
    };
    vstd::arithmetic::div_mod::lemma_div_is_ordered(
        (config.sea_level_threshold - high) * ONE,
        (config.sea_level_threshold - low) * ONE,
        width,
    );
    if low >= config.sea_level_threshold {
        let n = (config.sea_level_threshold - low) * ONE;
        vstd::arithmetic::div_mod::lemma_div_is_ordered(n, 0, width);
        assert(0int / width == 0) by {
            vstd::arithmetic::div_mod::lemma_div_basics(width);
        }
    }
}

fn product3(a: i64, b: i64, c: i64) -> (r: i128)
    requires
        0 <= a <= ONE,
        0 <= b <= ONE,
        0 <= c <= 100_000_000_000,
    ensures
        r == a * b * c,
        0 <= r <= 100_000_000_000_000_000_000_000_000_000,
{
    let x: i128 = a as i128;
    let y: i128 = b as i128;
    let z: i128 = c as i128;
    assert(0 <= x * y <= 1_000_000_000_000_000_000) by (nonlinear_arith)
        requires
            0 <= x <= 1_000_000_000,
            0 <= y <= 1_000_000_000,
    ;
    let xy: i128 = x * y;
    assert(0 <= xy * z <= 1_000_000_000_000_000_000 * 100_000_000_000) by (nonlinear_arith)
        requires
            0 <= xy <= 1_000_000_000_000_000_000,
            0 <= z <= 100_000_000_000,
    ;
    xy * z
}

/// A part of a sum, as a fraction.
fn share(part: i128, sum: i128) -> (r: i64)
    requires
        0 <= part <= sum,
        part <= 100_000_000_000_000_000_000_000_000_000,
        sum > 0,
    ensures
        r == (part * ONE) / (sum as int),
        0 <= r <= ONE,
{
    let n: i128 = part * 1_000_000_000;
    proof {
        let s = sum as int;
        vstd::arithmetic::div_mod::lemma_div_is_ordered(n as int, s * 1_000_000_000, s);
        vstd::arithmetic::div_mod::lemma_div_multiples_vanish(1_000_000_000, s);
        vstd::arithmetic::div_mod::lemma_div_pos_is_pos(n as int, s);
    }
    (n / sum) as i64
}

/// Normalised per-biome blend weights at the given climate, in the order
/// grasslands, taiga, desert, forest. Shared by elevation, relief and colour so
/// they always agree on the mix.
pub fn biome_weights(config: &WorldGenConfig, temp: i64, humidity: i64) -> (w: [i64; 4])
    requires
        config.wf(),
        0 <= temp <= ONE,
        0 <= humidity <= ONE,
    ensures
        w@.map_values(|x: i64| x as int) == blend_weights(*config, temp as int, humidity as int),
        forall|i: int| 0 <= i < 4 ==> 0 <= #[trigger] w@[i] <= ONE,
{
    let one: i64 = 1_000_000_000;
    let grass: i128 = product3(one - temp, one - humidity, config.grasslands.abundance);
    let taiga: i128 = product3(one - temp, humidity, config.taiga.abundance);
    let desert: i128 = product3(temp, one - humidity, config.desert.abundance);
    let forest: i128 = product3(temp, humidity, config.forest.abundance);
    let sum: i128 = grass + taiga + desert + forest;
    let w: [i64; 4] = if sum <= 1_000_000_000_000_000_000_000 {
        [250_000_000, 250_000_000, 250_000_000, 250_000_000]
    } else {
        [share(grass, sum), share(taiga, sum), share(desert, sum), share(forest, sum)]
    };
    assert(w@.map_values(|x: i64| x as int) =~= blend_weights(
        *config,
        temp as int,
        humidity as int,
    ));
    w
}

fn mix(w: &[i64; 4], grass: i64, taiga: i64, desert: i64, forest: i64) -> (r: i64)
    requires
        forall|i: int| 0 <= i < 4 ==> 0 <= #[trigger] w@[i] <= ONE,
        within(grass as int, 1_000_000_000_000),
        within(taiga as int, 1_000_000_000_000),
        within(desert as int, 1_000_000_000_000),
        within(forest as int, 1_000_000_000_000),
    ensures
        r == mixed(
            w@.map_values(|x: i64| x as int),
            grass as int,
            taiga as int,
            desert as int,
            forest as int,
        ),
        within(r as int, 4_000_000_000_001),
{
    proof {
        lemma_scaled_bound(w[0] as int, grass as int, 1_000_000_000, 1_000_000_000_000);
        lemma_scaled_bound(w[1] as int, taiga as int, 1_000_000_000, 1_000_000_000_000);
        lemma_scaled_bound(w[2] as int, desert as int, 1_000_000_000, 1_000_000_000_000);
        lemma_scaled_bound(w[3] as int, forest as int, 1_000_000_000, 1_000_000_000_000);
    }
    let sum: i128 = (w[0] as i128) * (grass as i128) + (w[1] as i128) * (taiga as i128) + (
    w[2] as i128) * (desert as i128) + (w[3] as i128) * (forest as i128);
    floor_div(sum, 1_000_000_000) as i64
}

/// Raw natural height from the noise sum, the climate, and a precomputed ocean
/// share: abundance-weighted blends of biome elevation and relief, each pulled
/// toward the ocean basin and flat sea floor.
pub fn shape_raw(
    config: &WorldGenConfig,
    base: i64,
    temp: i64,
    humidity: i64,
    ocean: i64,
) -> (height: i64)
    requires
        config.wf(),
        within(base as int, 100_000_000_000),
        0 <= temp <= ONE,
        0 <= humidity <= ONE,
        0 <= ocean <= ONE,
    ensures
        height == shaped(*config, base as int, temp as int, humidity as int, ocean as int),
        within(height as int, 410_000_000_000_000),
{
    let w: [i64; 4] = biome_weights(config, temp, humidity);
    let land_elevation: i64 = mix(
        &w,
        config.grasslands.elevation,
        config.taiga.elevation,
        config.desert.elevation,
        config.forest.elevation,
    );
    let land_relief: i64 = mix(
        &w,
        config.grasslands.relief,
        config.taiga.relief,
        config.desert.relief,
        config.forest.relief,
    );
    let elevation: i64 = blend(land_elevation, -config.ocean_depth, ocean);
    let relief: i64 = blend(land_relief, OCEAN_RELIEF, ocean);
    proof {
        blend_stays_between(land_elevation as int, -config.ocean_depth, ocean as int);
        blend_stays_between(land_relief as int, OCEAN_RELIEF as int, ocean as int);
        lemma_scaled_bound(base as int, relief as int, 100_000_000_000, 4_000_000_000_001);
    }
    scale(base, relief) as i64 + elevation
}

/// The raw natural height plus the climate that shaped it. The elevation is
/// estimated from the sea-level climate, then cooled by the lapse rate so high
/// ground trends cold; one step, without iterating.
pub fn natural_raw(config: &WorldGenConfig, sample: &NoiseSample) -> (r: (i64, i64, i64))
    requires
        config.wf(),
        sample.wf(),
    ensures
        (r.0 as int, r.1 as int, r.2 as int) == natural_of(*config, *sample),
        within(r.0 as int, 410_000_000_000_000),
        0 <= r.1 <= ONE,
        0 <= r.2 <= ONE,
{
    let (temp_base, humidity, land) = climate_and_continent(config, sample);
    let ocean: i64 = ocean_factor(config, land);
    let temp: i64 = if config.temp_lapse > 0 {
        let estimate: i64 = shape_raw(config, sample.base, temp_base, humidity, ocean);
        proof {
            lemma_scaled_bound(
                estimate as int,
                config.height_scale as int,
                410_000_000_000_000,
                10_000_000_000_000,
            );
        }
        let height: i64 = scale(estimate, config.height_scale) as i64;
        let altitude: i64 = if height > 0 {
            height
        } else {
            0
        };
        let drop: i128 = floor_div(scale(config.temp_lapse, altitude), 1000);
        clamp(temp_base as i128 - drop, 0, 1_000_000_000)
    } else {
        temp_base
    };
    (shape_raw(config, sample.base, temp, humidity, ocean), temp, humidity)
}

/// Natural terrain height ignoring runway flattening, in nanometres. Used to seed
/// each runway's elevation.
pub fn natural_height(config: &WorldGenConfig, sample: &NoiseSample) -> (height: i64)
    requires
        config.wf(),
        sample.wf(),
    ensures
        height == scaled(natural_of(*config, *sample).0, config.height_scale as int),
{
    let raw: i64 = natural_raw(config, sample).0;
    proof {
        lemma_scaled_bound(
            raw as int,
            config.height_scale as int,
            410_000_000_000_000,
            10_000_000_000_000,
        );
    }
    scale(raw, config.height_scale) as i64
}

proof fn lemma_shares(c: Seq<int>, sum: int)
    requires
        c.len() == 4,
        c[0] >= 0,
        c[1] >= 0,
        c[2] >= 0,
        c[3] >= 0,
        sum == c[0] + c[1] + c[2] + c[3],
        sum > 0,
    ensures
        ONE - 3 <= (c[0] * ONE) / sum + (c[1] * ONE) / sum + (c[2] * ONE) / sum + (c[3] * ONE) / sum
            <= ONE,
{
    let one: int = 1_000_000_000;
    let q0 = (c[0] * one) / sum;
    let q1 = (c[1] * one) / sum;
    let q2 = (c[2] * one) / sum;
    let q3 = (c[3] * one) / sum;
    vstd::arithmetic::div_mod::lemma_fundamental_div_mod(c[0] * one, sum);
    vstd::arithmetic::div_mod::lemma_fundamental_div_mod(c[1] * one, sum);
    vstd::arithmetic::div_mod::lemma_fundamental_div_mod(c[2] * one, sum);
    vstd::arithmetic::div_mod::lemma_fundamental_div_mod(c[3] * one, sum);
    let r = (c[0] * one) % sum + (c[1] * one) % sum + (c[2] * one) % sum + (c[3] * one) % sum;
    let q = q0 + q1 + q2 + q3;
    assert(sum * q == sum * q0 + sum * q1 + sum * q2 + sum * q3) by (nonlinear_arith)
        requires
            q == q0 + q1 + q2 + q3,
    ;
    assert(sum * one == sum * q + r);
    assert(one - 3 <= q <= one) by (nonlinear_arith)
        requires
            sum * one == sum * q + r,
            0 <= r < 4 * sum,
            sum > 0,
    ;
}

/// The blend weights are a partition of one, but for the last decimals.
pub proof fn weights_sum_to_one(config: WorldGenConfig, temp: int, humidity: int)
    requires
        config.wf(),
        0 <= temp <= ONE,
        0 <= humidity <= ONE,
    ensures
        ({
            let w = blend_weights(config, temp, humidity);
            ONE - 3 <= w[0] + w[1] + w[2] + w[3] <= ONE
        }),
{
    let c = corner_weights(config, temp, humidity);
    let sum = c[0] + c[1] + c[2] + c[3];
    lemma_corner_nonneg(ONE - temp, ONE - humidity, config.grasslands.abundance as int);
    lemma_corner_nonneg(ONE - temp, humidity, config.taiga.abundance as int);
    lemma_corner_nonneg(temp, ONE - humidity, config.desert.abundance as int);
    lemma_corner_nonneg(temp, humidity, config.forest.abundance as int);
    if sum > 1_000_000_000_000_000_000_000 {
        lemma_shares(c, sum);
    }
}

proof fn lemma_corner_nonneg(a: int, b: int, c: int)
    requires
        a >= 0,
        b >= 0,
        c >= 0,
    ensures
        a * b * c >= 0,
{
    assert(a * b >= 0) by (nonlinear_arith)
        requires
            a >= 0,
            b >= 0,
    ;
    let ab = a * b;
    assert(ab * c >= 0) by (nonlinear_arith)
        requires
            ab >= 0,
            c >= 0,
    ;
}

/// With every abundance at one the weights are the plain bilinear ones.
pub proof fn equal_abundance_is_bilinear(config: WorldGenConfig, temp: int, humidity: int)
    requires
        config.grasslands.abundance == ONE,
        config.taiga.abundance == ONE,
        config.desert.abundance == ONE,
        config.forest.abundance == ONE,
        0 <= temp <= ONE,
        0 <= humidity <= ONE,
    ensures
        blend_weights(config, temp, humidity) == seq![
            scaled(ONE - temp, ONE - humidity),
            scaled(ONE - temp, humidity),
            scaled(temp, ONE - humidity),
            scaled(temp, humidity),
        ],
{
    let c = corner_weights(config, temp, humidity);
    let one: int = 1_000_000_000;
    let sum = c[0] + c[1] + c[2] + c[3];
    assert(sum == one * one * one) by (nonlinear_arith)
        requires
            sum == (one - temp) * (one - humidity) * one + (one - temp) * humidity * one + temp * (
            one - humidity) * one + temp * humidity * one,
    ;
    lemma_cancel(((ONE - temp) * (ONE - humidity)) as int);
    lemma_cancel((ONE - temp) * humidity);
    lemma_cancel(temp * (ONE - humidity));
    lemma_cancel(temp * humidity);
    assert(blend_weights(config, temp, humidity) =~= seq![
        scaled(ONE - temp, ONE - humidity),
        scaled(ONE - temp, humidity),
        scaled(temp, ONE - humidity),
        scaled(temp, humidity),
    ]);
}

proof fn lemma_cancel(p: int)
    ensures
        (p * ONE * ONE) / 1_000_000_000_000_000_000_000_000_000 == p / (ONE as int),
{
}

/// A height threshold, in raw units, and the colour terrain takes there.
#[derive(Clone, Copy, Debug, PartialEq, Eq, Structural)]
pub struct TerrainStop {
    pub height: i64,
    pub colour: Colour,
}

/// Where a height falls in a palette: between two of its stops, `t` of the way
/// up.
#[derive(Clone, Copy, Debug, PartialEq, Eq, Structural)]
pub struct PaletteMix {
    pub lower: usize,
    pub upper: usize,
    pub t: i64,
}

/// The stops ascend.
pub open spec fn ascending_stops(palette: Seq<TerrainStop>) -> bool {
    forall|i: int, j: int|
        0 <= i < j < palette.len() ==> (#[trigger] palette[i]).height < (
        #[trigger] palette[j]).height
}

/// The mix is the palette's colour at `height`: the first stop's below it, the
/// last one's above it, interpolated between the bracketing stops elsewhere.
pub open spec fn mixes(m: PaletteMix, height: int, palette: Seq<TerrainStop>) -> bool {
    let last = palette.len() - 1;
    if height <= palette[0].height {
        m == (PaletteMix { lower: 0, upper: 0, t: 0 })
    } else if height >= palette[last].height {
        m.lower == last && m.upper == last && m.t == 0
    } else {
        &&& m.upper < palette.len()
        &&& m.lower + 1 == m.upper
        &&& palette[m.lower as int].height < height <= palette[m.upper as int].height
        &&& m.t == ((height - palette[m.lower as int].height) * ONE) / (
        palette[m.upper as int].height - palette[m.lower as int].height)
    }
}

/// Where `height` falls within one biome palette, between the two bracketing
/// stops.
pub fn palette_color(height: i64, palette: &Vec<TerrainStop>) -> (m: PaletteMix)
    requires
        palette@.len() > 0,
        ascending_stops(palette@),
    ensures
        mixes(m, height as int, palette@),
        0 <= m.t <= ONE,
{
    if height <= palette[0].height {
        return PaletteMix { lower: 0, upper: 0, t: 0 };
    }
    let last: usize = palette.len() - 1;
    if height >= palette[last].height {
        return PaletteMix { lower: last, upper: last, t: 0 };
    }
    let mut i: usize = 1;
    while height > palette[i].height
        invariant
            1 <= i <= last,
            last == palette@.len() - 1,
            palette@[i - 1].height < height < palette@[last as int].height,
        decreases last - i,
    {
        i = i + 1;
    }
    let lower: i128 = palette[i - 1].height as i128;
    let upper: i128 = palette[i].height as i128;
    let n: i128 = (height as i128 - lower) * 1_000_000_000;
    let d: i128 = upper - lower;
    proof {
        let dd = d as int;
        vstd::arithmetic::div_mod::lemma_div_is_ordered(n as int, dd * 1_000_000_000, dd);
        vstd::arithmetic::div_mod::lemma_div_multiples_vanish(1_000_000_000, dd);
        vstd::arithmetic::div_mod::lemma_div_pos_is_pos(n as int, dd);
    }
    PaletteMix { lower: i - 1, upper: i, t: (n / d) as i64 }
}

fn stop(height: i64, r: i64, g: i64, b: i64) -> (s: TerrainStop)
    ensures
        s == (TerrainStop { height, colour: Colour { r, g, b } }),
{
    TerrainStop { height, colour: Colour { r, g, b } }
}

/// A stop given in tenths.
pub open spec fn stop_of(height: int, r: int, g: int, b: int) -> TerrainStop {
    TerrainStop {
        height: (height * 100_000_000) as i64,
        colour: Colour {
            r: (r * 100_000_000) as i64,
            g: (g * 100_000_000) as i64,
            b: (b * 100_000_000) as i64,
        },
    }
}

/// The palette of a land biome, in tenths; the sea floor has none of its own.
pub open spec fn palette_of(biome: Biome) -> Seq<TerrainStop> {
    match biome {
        Biome::Grasslands => seq![
            stop_of(-10, 3, 2, 1),
            stop_of(-5, 8, 7, 5),
            stop_of(2, 2, 5, 2),
            stop_of(25, 5, 5, 5),
        ],
        Biome::Desert => seq![
            stop_of(-10, 6, 4, 2),
            stop_of(-5, 9, 8, 5),
            stop_of(7, 8, 6, 3),
            stop_of(15, 7, 4, 2),
            stop_of(25, 6, 3, 1),
        ],
        Biome::Taiga => seq![
            stop_of(-10, 2, 2, 2),
            stop_of(-5, 4, 4, 4),
            stop_of(3, 1, 3, 2),
            stop_of(8, 5, 5, 5),
            stop_of(10, 10, 10, 10),
        ],
        Biome::Forest => seq![
            stop_of(-10, 3, 2, 1),
            stop_of(-5, 2, 4, 1),
            stop_of(3, 1, 8, 1),
            stop_of(27, 4, 4, 4),
            stop_of(30, 10, 10, 10),
        ],
        Biome::Ocean => Seq::empty(),
    }
}

/// The colour stops of a biome.
pub fn palette(biome: Biome) -> (stops: Vec<TerrainStop>)
    ensures
        stops@ == palette_of(biome),
        ascending_stops(stops@),
        biome is Ocean || stops@.len() > 0,
{
    let stops: Vec<TerrainStop> = match biome {
        Biome::Grasslands => vec![
            stop(-1_000_000_000, 300_000_000, 200_000_000, 100_000_000),
            stop(-500_000_000, 800_000_000, 700_000_000, 500_000_000),
            stop(200_000_000, 200_000_000, 500_000_000, 200_000_000),
            stop(2_500_000_000, 500_000_000, 500_000_000, 500_000_000),
        ],
        Biome::Desert => vec![
            stop(-1_000_000_000, 600_000_000, 400_000_000, 200_000_000),
            stop(-500_000_000, 900_000_000, 800_000_000, 500_000_000),
            stop(700_000_000, 800_000_000, 600_000_000, 300_000_000),
            stop(1_500_000_000, 700_000_000, 400_000_000, 200_000_000),
            stop(2_500_000_000, 600_000_000, 300_000_000, 100_000_000),
        ],
        Biome::Taiga => vec![
            stop(-1_000_000_000, 200_000_000, 200_000_000, 200_000_000),
            stop(-500_000_000, 400_000_000, 400_000_000, 400_000_000),
            stop(300_000_000, 100_000_000, 300_000_000, 200_000_000),
            stop(800_000_000, 500_000_000, 500_000_000, 500_000_000),
            stop(1_000_000_000, 1_000_000_000, 1_000_000_000, 1_000_000_000),
        ],
        Biome::Forest => vec![
            stop(-1_000_000_000, 300_000_000, 200_000_000, 100_000_000),
            stop(-500_000_000, 200_000_000, 400_000_000, 100_000_000),
            stop(300_000_000, 100_000_000, 800_000_000, 100_000_000),
            stop(2_700_000_000, 400_000_000, 400_000_000, 400_000_000),
            stop(3_000_000_000, 1_000_000_000, 1_000_000_000, 1_000_000_000),
        ],
        Biome::Ocean => Vec::new(),
    };
    assert(stops@ =~= palette_of(biome));
    stops
}

}
