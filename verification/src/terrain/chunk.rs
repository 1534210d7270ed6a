//! The chunk grid's bookkeeping. The streaming passes that drive it are in
//! [`super::streaming`].

use super::cells::{members, no_cells};
use bevy::platform::collections::HashSet;
use vstd::prelude::*;

verus! {

/// Edge length of a chunk: 500 m, in nanometres.
pub const CHUNK_SIZE: i64 = 500_000_000_000;

/// A single terrain tile. `(x, z)` are integer chunk coordinates (world position
/// is `coord * CHUNK_SIZE`); `current_lod` is the subdivision count its mesh was
/// last built at, so the LOD pass can detect when it needs rebuilding.
#[derive(Clone, Copy, Debug, PartialEq, Eq, Structural)]
pub struct Chunk {
    pub x: i32,
    pub z: i32,
    pub current_lod: u32,
}

/// A chunk together with the entity that carries it.
#[derive(Clone, Copy, Debug, PartialEq, Eq, Structural)]
pub struct ChunkRecord {
    pub entity: u64,
    pub chunk: Chunk,
}

/// One distance band: chunks up to `max_distance` chunk lengths away (nine
/// decimals) are built with `subdivisions`.
#[derive(Clone, Copy, Debug, PartialEq, Eq, Structural)]
pub struct LodBand {
    pub max_distance: i64,
    pub subdivisions: u32,
}

/// Bookkeeping for which chunks exist and what still needs doing. The queues let
/// the streaming passes rate-limit work across frames instead of spawning the
/// whole render disc at once.
pub struct ChunkManager {
    /// Chunk coords currently spawned, for O(1) "do we already have it?" checks.
    pub spawned_chunks: HashSet<(i32, i32)>,
    /// The camera chunk last scanned from; the disc is re-scanned only when this
    /// changes.
    pub last_camera_chunk: Option<(i32, i32)>,
    /// Pending spawns, nearest last, so that taking from the end spawns
    /// nearest-first.
    pub to_spawn: Vec<(i32, i32)>,
    /// Entities whose LOD needs rebuilding, sorted nearest-first.
    pub lod_to_update: Vec<u64>,
    /// View radius in chunks.
    pub render_distance: i32,
    /// Distance bands, ascending. A chunk uses the subdivisions of the first band
    /// it falls within.
    pub lod_levels: [LodBand; 4],
}

impl ChunkManager {
    /// The chunk coordinates that are spawned.
    pub open spec fn spawned(self) -> Set<(i32, i32)> {
        members(self.spawned_chunks)
    }
}

/// The distance bands of a new world: 12, 8, 3 and 1 subdivisions from near to
/// far.
pub open spec fn default_bands() -> Seq<LodBand> {
    seq![
        LodBand { max_distance: 2_000_000_000, subdivisions: 12 },
        LodBand { max_distance: 6_000_000_000, subdivisions: 8 },
        LodBand { max_distance: 20_000_000_000, subdivisions: 3 },
        LodBand { max_distance: 30_000_000_000, subdivisions: 1 },
    ]
}

/// The distance bands of a new world.
pub fn lod_bands() -> (bands: [LodBand; 4])
    ensures
        bands@ == default_bands(),
{
    let bands: [LodBand; 4] = [
        LodBand { max_distance: 2_000_000_000, subdivisions: 12 },
        LodBand { max_distance: 6_000_000_000, subdivisions: 8 },
        LodBand { max_distance: 20_000_000_000, subdivisions: 3 },
        LodBand { max_distance: 30_000_000_000, subdivisions: 1 },
    ];
    assert(bands@ =~= default_bands());
    bands
}

impl Default for ChunkManager {
    fn default() -> (manager: Self)
        ensures
            manager.spawned() == Set::<(i32, i32)>::empty(),
            manager.last_camera_chunk is None,
            manager.to_spawn@.len() == 0,
            manager.lod_to_update@.len() == 0,
            manager.render_distance == 28,
            manager.lod_levels@ == default_bands(),
    {
        ChunkManager {
            spawned_chunks: no_cells(),
            last_camera_chunk: None,
            to_spawn: Vec::new(),
            lod_to_update: Vec::new(),
            render_distance: 28,
            lod_levels: lod_bands(),
        }
    }
}

/// How much chunk work may start per frame.
#[derive(Clone, Copy, Debug, PartialEq, Eq, Structural)]
pub struct WorldGenerationSettings {
    pub max_chunks_per_frame: usize,
}

impl Default for WorldGenerationSettings {
    fn default() -> (settings: Self)
        ensures
            settings.max_chunks_per_frame == 3,
    {
        WorldGenerationSettings { max_chunks_per_frame: 3 }
    }
}

/// Squared distance between two chunks, in chunk lengths.
pub open spec fn distance_sq(x: int, z: int, camera: (i32, i32)) -> int {
    (x - camera.0) * (x - camera.0) + (z - camera.1) * (z - camera.1)
}

/// A chunk whose squared distance is `distance_sq` lies within the band: its
/// distance, the square root, is at most `max_distance`.
pub open spec fn within_band(distance_sq: int, band: LodBand) -> bool {
    band.max_distance >= 0 && distance_sq * 1_000_000_000_000_000_000 <= band.max_distance
        * band.max_distance
}

/// Subdivisions of the first band that the distance falls within, those of the
/// last band where it falls within none.
pub open spec fn lod_for(distance_sq: int, levels: Seq<LodBand>) -> u32
    decreases levels.len(),
{
    if levels.len() == 0 {
        0
    } else if levels.len() == 1 || within_band(distance_sq, levels[0]) {
        levels[0].subdivisions
    } else {
        lod_for(distance_sq, levels.skip(1))
    }
}

/// Squared distance from the camera's chunk.
pub fn chunk_distance_sq(x: i32, z: i32, camera: (i32, i32)) -> (d: i128)
    ensures
        d == distance_sq(x as int, z as int, camera),
        0 <= d <= 0x2_0000_0000_0000_0000,
{
    let dx: i128 = x as i128 - camera.0 as i128;
    let dz: i128 = z as i128 - camera.1 as i128;
    assert(0 <= dx * dx <= 0x1_0000_0000_0000_0000) by (nonlinear_arith)
        requires
            -0x1_0000_0000 <= dx <= 0x1_0000_0000,
    ;
    assert(0 <= dz * dz <= 0x1_0000_0000_0000_0000) by (nonlinear_arith)
        requires
            -0x1_0000_0000 <= dz <= 0x1_0000_0000,
    ;
    dx * dx + dz * dz
}

/// Subdivision count for a chunk at the given squared chunk distance from the
/// camera, looked up in [`ChunkManager::lod_levels`].
pub fn lod_for_distance_sq(distance_sq: i128, manager: &ChunkManager) -> (lod: u32)
    requires
        0 <= distance_sq <= 0x2_0000_0000_0000_0000,
    ensures
        lod == lod_for(distance_sq as int, manager.lod_levels@),
{
    let scaled: i128 = distance_sq * 1_000_000_000_000_000_000;
    let ghost levels = manager.lod_levels@;
    assert(levels.skip(0) =~= levels);
    let mut i: usize = 0;
    while i < 3
        invariant
            i <= 3,
            levels == manager.lod_levels@,
            scaled == distance_sq * 1_000_000_000_000_000_000,
            lod_for(distance_sq as int, levels) == lod_for(
                distance_sq as int,
                levels.skip(i as int),
            ),
        decreases 3 - i,
    {
        let band: LodBand = manager.lod_levels[i];
        let limit: i128 = band.max_distance as i128;
        assert(0 <= limit * limit <= 0x7fff_ffff_ffff_ffff_ffff_ffff_ffff_ffff) by (nonlinear_arith)
            requires
                -0x8000_0000_0000_0000 <= limit <= 0x7fff_ffff_ffff_ffff,
        ;
        assert(levels.skip(i as int)[0] == band);
        assert(levels.skip(i as int).skip(1) =~= levels.skip(i + 1));
        if limit >= 0 && scaled <= limit * limit {
            return band.subdivisions;
        }
        i = i + 1;
    }
    assert(levels.skip(3)[0] == levels[3]);
    manager.lod_levels[3].subdivisions
}

}
