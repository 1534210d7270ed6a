//! The world generator: the settings of a world and the noise layers it samples,
//! and what a sample means at a point. Quantities have nine decimals.

use super::generator::{
    biome_of, biome_weights, blend_weights, climate_and_continent, climate_of, get_biome,
    layer_plans, layers_of, natural_height, natural_of, natural_raw, Biome, LayerPlan, NoiseSample,
    WorldGenConfig,
};
use super::runway::{
    flattened, ground_height, raised, RunwayInstance, RUNWAY_SURFACE_LIFT,
};
use crate::fixed::{floor_div, scale, scaled};
use crate::physics::aero_surface_config::TAU;
use vstd::prelude::*;

verus! {

/// Terrain made from layered noise shaped by a coarse climate field. Built from a
/// snapshot of the settings; the horizontal scale is part of the layers, so that
/// changing it means building the generator anew.
#[derive(Debug)]
pub struct WorldGenerator {
    pub config: WorldGenConfig,
    pub layers: Vec<LayerPlan>,
}

/// What the mesh needs at a point: the height in metres, the raw height that the
/// palettes are keyed to, and the weights of grassland, taiga, desert and forest.
#[derive(Clone, Copy, Debug, PartialEq, Eq)]
pub struct NaturalSample {
    pub height: i64,
    pub raw: i64,
    pub weights: [i64; 4],
}

/// The sample gathers the noise of the eight layers: the terrain layers by their
/// amplitudes, the others as they are.
pub open spec fn gathers(sample: NoiseSample, noise: Seq<i64>, latitude_cos: int) -> bool {
    &&& sample.base == scaled(noise[0] as int, 4_500_000_000) + scaled(
        noise[1] as int,
        3_500_000_000,
    ) + scaled(noise[2] as int, 1_750_000_000) + scaled(noise[3] as int, 500_000_000) + scaled(
        noise[4] as int,
        400_000_000,
    )
    &&& sample.temperature == noise[5]
    &&& sample.humidity == noise[6]
    &&& sample.continent == noise[7]
    &&& sample.latitude_cos == latitude_cos
}

/// Where along the bands of latitude a place is: a band is a full turn, and at least a
/// metre wide.
pub open spec fn latitude_of(config: WorldGenConfig, z: int) -> int {
    (z * TAU) / (if config.latitude_band > 1_000_000_000 {
        config.latitude_band as int
    } else {
        1_000_000_000
    })
}

/// Height of the land (m) before runways level it.
pub open spec fn metres_of(config: WorldGenConfig, sample: NoiseSample) -> int {
    scaled(natural_of(config, sample).0, config.height_scale as int)
}

impl WorldGenerator {
    /// The settings can be worked with, and the layers are theirs.
    pub open spec fn wf(self) -> bool {
        &&& self.config.wf()
        &&& self.layers@ == layers_of(self.config)
    }

    /// The generator for the given settings.
    pub fn from_config(config: &WorldGenConfig) -> (world: Self)
        requires
            config.wf(),
            config.seed + 600 <= u32::MAX,
        ensures
            world.wf(),
            world.config == *config,
    {
        WorldGenerator { config: *config, layers: layer_plans(config) }
    }

    /// The world's seed, from which runways are laid out.
    pub fn seed(&self) -> (seed: u32)
        ensures
            seed == self.config.seed,
    {
        self.config.seed
    }

    /// The sample of a point from what the eight layers' noise gives there, and the
    /// cosine of its latitude: each layer counts by its amplitude, and the terrain
    /// layers add up.
    pub fn gather(&self, noise: &[i64; 8], latitude_cos: i64) -> (sample: NoiseSample)
        requires
            self.wf(),
            forall|i: int|
                0 <= i < 8 ==> -2_000_000_000 <= #[trigger] noise@[i] <= 2_000_000_000,
            -1_000_000_000 <= latitude_cos <= 1_000_000_000,
        ensures
            sample.wf(),
            gathers(sample, noise@, latitude_cos as int),
    {
        let mut base: i64 = 0;
        base = base + scale(noise[0], self.layers[0].amplitude) as i64;
        base = base + scale(noise[1], self.layers[1].amplitude) as i64;
        base = base + scale(noise[2], self.layers[2].amplitude) as i64;
        base = base + scale(noise[3], self.layers[3].amplitude) as i64;
        base = base + scale(noise[4], self.layers[4].amplitude) as i64;
        NoiseSample {
            base,
            temperature: scale(noise[5], self.layers[5].amplitude) as i64,
            humidity: scale(noise[6], self.layers[6].amplitude) as i64,
            continent: scale(noise[7], self.layers[7].amplitude) as i64,
            latitude_cos,
        }
    }

    /// Where along the bands of latitude a place is, in nanoradians: a band is a
    /// full turn, and at least a metre wide.
    pub fn latitude_angle(&self, z: i64) -> (angle: i128)
        ensures
            angle == latitude_of(self.config, z as int),
    {
        let band: i128 = if self.config.latitude_band > 1_000_000_000 {
            self.config.latitude_band as i128
        } else {
            1_000_000_000
        };
        floor_div(z as i128 * 6_283_185_307, band)
    }

    /// Temperature and humidity at sea level.
    pub fn get_climate(&self, sample: &NoiseSample) -> (climate: (i64, i64))
        requires
            self.wf(),
            sample.wf(),
        ensures
            climate.0 == climate_of(self.config, *sample).0,
            climate.1 == climate_of(self.config, *sample).1,
    {
        let (temp, humidity, _) = climate_and_continent(&self.config, sample);
        (temp, humidity)
    }

    /// The biome at a point.
    pub fn get_biome(&self, sample: &NoiseSample) -> (biome: Biome)
        requires
            self.wf(),
            sample.wf(),
        ensures
            biome == biome_of(self.config, *sample),
    {
        get_biome(&self.config, sample)
    }

    /// Height of the land (m) before runways level it.
    pub fn natural_height(&self, sample: &NoiseSample) -> (height: i64)
        requires
            self.wf(),
            sample.wf(),
        ensures
            height == metres_of(self.config, *sample),
    {
        natural_height(&self.config, sample)
    }

    /// Height of the ground (m) as the landing gear finds it: levelled by the
    /// runways near the point, on top of the asphalt where there is any. `points`
    /// is where the point is in each runway's frame.
    pub fn get_terrain_height(
        &self,
        sample: &NoiseSample,
        runways: &Vec<RunwayInstance>,
        points: &Vec<(i64, i64)>,
    ) -> (ground: i64)
        requires
            self.wf(),
            sample.wf(),
            points@.len() == runways@.len(),
            forall|i: int|
                0 <= i < runways@.len() ==> (#[trigger] runways@[i]).elevation <= i64::MAX
                    - RUNWAY_SURFACE_LIFT,
        ensures
            ground == raised(
                runways@,
                points@,
                flattened(runways@, points@, metres_of(self.config, *sample)),
            ),
    {
        ground_height(runways, points, natural_height(&self.config, sample))
    }

    /// Height and colour weights at a point, for the mesh: one evaluation of the
    /// rules gives both.
    pub fn sample_natural(&self, sample: &NoiseSample) -> (r: NaturalSample)
        requires
            self.wf(),
            sample.wf(),
        ensures
            ({
                let (raw, temp, humidity) = natural_of(self.config, *sample);
                &&& r.raw == raw
                &&& r.height == metres_of(self.config, *sample)
                &&& r.weights@.map_values(|x: i64| x as int) == blend_weights(
                    self.config,
                    temp,
                    humidity,
                )
            }),
            forall|i: int| 0 <= i < 4 ==> 0 <= #[trigger] r.weights@[i] <= crate::fixed::ONE,
    {
        let (raw, temp, humidity) = natural_raw(&self.config, sample);
        let height: i64 = natural_height(&self.config, sample);
        NaturalSample { height, raw, weights: biome_weights(&self.config, temp, humidity) }
    }
}

}
