//! Which chunks come, which go and in what order: laws over distances from the camera.

use super::chunk::{lod_for, ChunkRecord, LodBand};
use super::generator::{same_land, WorldGenConfig};
use super::streaming::{
    distinct_entities, dropped_before, fresh_chunk, in_disc, is_record_of, lod_queue, nearest_chunk,
    out_of_bounds, queued_before, record_distance, record_distances, regen_step, scan_queue,
    spawn_steps, spawning_is_nearest_first, RegenState,
};
use crate::order::precedes;
use vstd::prelude::*;

verus! {

/// The square of a cell's distance from the camera's.
pub open spec fn away(cell: (i32, i32), camera: (i32, i32)) -> int {
    (cell.0 - camera.0) * (cell.0 - camera.0) + (cell.1 - camera.1) * (cell.1 - camera.1)
}

/// A place belongs to the chunk whose middle is nearest: it is at most half a chunk
/// away from it. Places in mirror belong to chunks in mirror.
pub proof fn camera_is_in_the_nearest_chunk(v: int)
    ensures
        -500_000_000_000 <= 2 * (v - nearest_chunk(v) * 500_000_000_000) <= 500_000_000_000,
        nearest_chunk(-v) == -nearest_chunk(v),
{
}

/// The disc holds exactly the cells whose distance from the camera is at most its
/// radius.
pub proof fn disc_is_round(cell: (i32, i32), camera: (i32, i32), radius: int)
    ensures
        in_disc(cell, camera, radius) <==> (cell.0 - camera.0) * (cell.0 - camera.0) + (cell.1
            - camera.1) * (cell.1 - camera.1) <= radius * radius,
{
}

/// A scan queues every missing cell of the disc, once and nothing else, and the nearer of
/// two comes later in the queue.
pub proof fn scans_queue_the_far_cells_first(
    queue: Seq<(i32, i32)>,
    spawned: Set<(i32, i32)>,
    camera: (i32, i32),
    radius: int,
    i: int,
    j: int,
)
    requires
        scan_queue(queue, spawned, camera, radius),
        0 <= i < j < queue.len(),
    ensures
        ({
            let (a, b) = (queue[i], queue[j]);
            &&& a != b
            &&& (b.0 - camera.0) * (b.0 - camera.0) + (b.1 - camera.1) * (b.1 - camera.1) <= (a.0
                - camera.0) * (a.0 - camera.0) + (a.1 - camera.1) * (a.1 - camera.1)
            &&& !spawned.contains(a) && !spawned.contains(b)
            &&& in_disc(a, camera, radius) && in_disc(b, camera, radius)
        }),
{
    assert(queued_before(queue[i], queue[j], camera));
    assert(queue.contains(queue[i]));
    assert(queue.contains(queue[j]));
}

/// From a scan's queue the nearest cells are spawned first.
pub proof fn near_chunks_come_first(
    queue: Seq<(i32, i32)>,
    spawned: Set<(i32, i32)>,
    camera: (i32, i32),
    radius: int,
    budget: nat,
    i: int,
    j: int,
)
    requires
        scan_queue(queue, spawned, camera, radius),
        0 <= i < j < spawn_steps(queue, spawned, camera, radius, budget).1.len(),
    ensures
        ({
            let cells = spawn_steps(queue, spawned, camera, radius, budget).1;
            let (a, b) = (cells[i], cells[j]);
            (a.0 - camera.0) * (a.0 - camera.0) + (a.1 - camera.1) * (a.1 - camera.1) <= (b.0
                - camera.0) * (b.0 - camera.0) + (b.1 - camera.1) * (b.1 - camera.1)
        }),
{
    spawning_is_nearest_first(queue, spawned, camera, radius, budget);
    let cells = spawn_steps(queue, spawned, camera, radius, budget).1;
    assert(queued_before(cells[j], cells[i], camera));
}

/// With enough budget, a scan's queue is spawned to the last cell.
pub proof fn a_large_budget_spawns_the_disc(
    queue: Seq<(i32, i32)>,
    spawned: Set<(i32, i32)>,
    camera: (i32, i32),
    radius: int,
    budget: nat,
)
    requires
        queue.len() < budget,
        forall|i: int| 0 <= i < queue.len() ==> in_disc(#[trigger] queue[i], camera, radius),
        forall|i: int| 0 <= i < queue.len() ==> !spawned.contains(#[trigger] queue[i]),
        queue.no_duplicates(),
    ensures
        spawn_steps(queue, spawned, camera, radius, budget).0.len() == 0,
        spawn_steps(queue, spawned, camera, radius, budget).1.len() == queue.len(),
    decreases queue.len(),
{
    if queue.len() > 0 {
        let cell = queue.last();
        let rest = queue.drop_last();
        assert forall|i: int| 0 <= i < rest.len() implies !spawned.insert(cell).contains(
            #[trigger] rest[i],
        ) by {
            assert(rest[i] == queue[i]);
        }
        assert forall|i: int| 0 <= i < rest.len() implies in_disc(#[trigger] rest[i], camera, radius)
            by {
            assert(rest[i] == queue[i]);
        }
        a_large_budget_spawns_the_disc(
            rest,
            spawned.insert(cell),
            camera,
            radius,
            (budget - 1) as nat,
        );
    }
}

/// A fresh chunk stands at its cell.
pub proof fn fresh_chunks_stand_at_their_cell(
    cell: (i32, i32),
    camera: (i32, i32),
    levels: Seq<LodBand>,
)
    ensures
        (fresh_chunk(cell, camera, levels).x, fresh_chunk(cell, camera, levels).z) == cell,
{
}

/// A chunk may be dropped exactly where it is more than one chunk length out of view,
/// and of two the farther one goes first.
pub proof fn far_chunks_go_first(
    records: Seq<ChunkRecord>,
    camera: (i32, i32),
    radius: int,
    a: int,
    b: int,
)
    ensures
        ({
            let da = away((records[a].chunk.x, records[a].chunk.z), camera);
            let db = away((records[b].chunk.x, records[b].chunk.z), camera);
            &&& out_of_bounds(records[a], camera, radius) <==> da > (radius + 1) * (radius + 1)
            &&& dropped_before(records, camera, a, b) ==> da >= db
            &&& da > db ==> dropped_before(records, camera, a, b)
        }),
{
}

/// The chunks whose detail no longer suits their distance are queued, all of them and no
/// other, the nearer of two first.
pub proof fn rebuilds_are_queued_by_distance(
    queue: Seq<u64>,
    records: Seq<ChunkRecord>,
    camera: (i32, i32),
    levels: Seq<LodBand>,
    m: int,
    n: int,
    i: int,
    j: int,
)
    requires
        lod_queue(queue, records, camera, levels),
        distinct_entities(records),
        0 <= m < n < queue.len(),
        is_record_of(records, i, queue[m]),
        is_record_of(records, j, queue[n]),
    ensures
        ({
            let da = away((records[i].chunk.x, records[i].chunk.z), camera);
            let db = away((records[j].chunk.x, records[j].chunk.z), camera);
            &&& da <= db
            &&& lod_for(da, levels) != records[i].chunk.current_lod
            &&& lod_for(db, levels) != records[j].chunk.current_lod
        }),
{
    let keys = record_distances(records, camera);
    assert(precedes(keys, i, j));
    lemma_distance_fits(records[i], camera);
    lemma_distance_fits(records[j], camera);
    assert(queue.contains(queue[m]));
    assert(queue.contains(queue[n]));
}

proof fn lemma_distance_fits(record: ChunkRecord, camera: (i32, i32))
    ensures
        0 <= record_distance(record, camera) <= i128::MAX,
{
    let dx = record.chunk.x - camera.0;
    let dz = record.chunk.z - camera.1;
    assert(0 <= dx * dx <= 0x1_0000_0000_0000_0000) by (nonlinear_arith)
        requires
            -0x1_0000_0000 <= dx <= 0x1_0000_0000,
    ;
    assert(0 <= dz * dz <= 0x1_0000_0000_0000_0000) by (nonlinear_arith)
        requires
            -0x1_0000_0000 <= dz <= 0x1_0000_0000,
    ;
}

/// A chunk whose detail does not suit its distance waits in the queue.
pub proof fn unsuited_chunks_are_queued(
    queue: Seq<u64>,
    records: Seq<ChunkRecord>,
    camera: (i32, i32),
    levels: Seq<LodBand>,
    i: int,
)
    requires
        lod_queue(queue, records, camera, levels),
        0 <= i < records.len(),
        lod_for(away((records[i].chunk.x, records[i].chunk.z), camera), levels)
            != records[i].chunk.current_lod,
    ensures
        queue.contains(records[i].entity),
{
    assert(is_record_of(records, i, records[i].entity));
}

/// Settings make the same land however far it is seen and however fast it is streamed,
/// and another one under another seed, scale or sea level.
pub proof fn land_is_not_the_view(a: WorldGenConfig, b: WorldGenConfig)
    ensures
        same_land(
            a,
            (WorldGenConfig {
                render_distance: b.render_distance,
                max_chunks_per_frame: b.max_chunks_per_frame,
                lod_levels: b.lod_levels,
                ..a
            }),
        ),
        a.seed != b.seed || a.horizontal_scale != b.horizontal_scale || a.height_scale
            != b.height_scale || a.sea_level_threshold != b.sea_level_threshold ==> !same_land(a, b),
        same_land(a, b) <==> same_land(b, a),
{
}

/// A change of the land is followed by a rebuild once a quarter of a second has passed,
/// counted from the frame that sees it; the settings seen first are no change.
pub proof fn changes_rebuild_after_a_quarter_second(
    state: RegenState,
    last: WorldGenConfig,
    config: WorldGenConfig,
    delta: u64,
)
    requires
        state.seen == Some(last),
        !same_land(last, config),
    ensures
        ({
            let (after, rebuilt) = regen_step(state, config, delta);
            &&& after.seen == Some(config)
            &&& rebuilt <==> delta >= 250_000_000
            &&& rebuilt ==> after.pending is None
            &&& !rebuilt ==> (after.pending matches Some(left) && left + delta == 250_000_000)
            &&& !regen_step(RegenState { seen: None, ..state }, config, delta).1
        }),
{
}

}
