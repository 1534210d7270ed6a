//! The streaming passes: which chunks to spawn around the camera, which to
//! rebuild at another level of detail, which to drop, and when to start over.
//!
//! The disc is only re-scanned when the camera crosses a chunk boundary, and
//! each pass starts a bounded amount of work per frame.

use super::cells::{clear, holds, insert, remove};
use super::chunk::{
    chunk_distance_sq, distance_sq, lod_for, lod_for_distance_sq, Chunk, ChunkManager,
    ChunkRecord, LodBand, WorldGenerationSettings, CHUNK_SIZE,
};
use super::generator::{same_land, WorldGenConfig};
use crate::order::{precedes, sorted_order, stable_order};
use vstd::prelude::*;

verus! {

/// A world coordinate in chunk lengths, rounded to the nearest integer, halves
/// away from zero.
pub open spec fn nearest_chunk(v: int) -> int {
    if v >= 0 {
        (v + CHUNK_SIZE / 2) / (CHUNK_SIZE as int)
    } else {
        -((-v + CHUNK_SIZE / 2) / (CHUNK_SIZE as int))
    }
}

fn round_to_chunk(v: i64) -> (n: i32)
    ensures
        n == nearest_chunk(v as int),
{
    let half: i128 = 250_000_000_000;
    let size: i128 = 500_000_000_000;
    if v >= 0 {
        ((v as i128 + half) / size) as i32
    } else {
        -(((-(v as i128) + half) / size) as i32)
    }
}

/// Camera position rounded to chunk coordinates, or `None` if there is no camera
/// this frame. The position is the camera's `(x, z)` in nanometres.
pub fn camera_chunk(position: Option<(i64, i64)>) -> (chunk: Option<(i32, i32)>)
    ensures
        match position {
            Some(p) => chunk matches Some(c) && c.0 == nearest_chunk(p.0 as int) && c.1
                == nearest_chunk(p.1 as int),
            None => chunk is None,
        },
{
    match position {
        Some((x, z)) => Some((round_to_chunk(x), round_to_chunk(z))),
        None => None,
    }
}

/// The cell lies in the disc of radius `radius` around the camera.
pub open spec fn in_disc(cell: (i32, i32), camera: (i32, i32), radius: int) -> bool {
    distance_sq(cell.0 as int, cell.1 as int, camera) <= radius * radius
}

/// The scan meets `a` before `b`: column by column.
pub open spec fn scanned_before(a: (i32, i32), b: (i32, i32)) -> bool {
    a.0 < b.0 || (a.0 == b.0 && a.1 < b.1)
}

/// `a` stands before `b` in the spawn queue: farther first, so that the end of
/// the queue is nearest; equal distances as the scan met them.
pub open spec fn queued_before(a: (i32, i32), b: (i32, i32), camera: (i32, i32)) -> bool {
    let da = distance_sq(a.0 as int, a.1 as int, camera);
    let db = distance_sq(b.0 as int, b.1 as int, camera);
    da > db || (da == db && scanned_before(a, b))
}

/// The spawn queue of a fresh scan: each cell of the disc that is not spawned,
/// once, nearest last.
pub open spec fn scan_queue(
    queue: Seq<(i32, i32)>,
    spawned: Set<(i32, i32)>,
    camera: (i32, i32),
    radius: int,
) -> bool {
    &&& forall|c: (i32, i32)| #[trigger]
        queue.contains(c) <==> (radius >= 0 && in_disc(c, camera, radius) && !spawned.contains(c))
    &&& forall|i: int, j: int|
        0 <= i < j < queue.len() ==> queued_before(#[trigger] queue[i], #[trigger] queue[j], camera)
}

/// Spawning from the end of the queue until `budget` chunks were spawned or the
/// queue is empty; cells out of range or already spawned are dropped. Gives the
/// queue that is left and the cells spawned, in order.
pub open spec fn spawn_steps(
    queue: Seq<(i32, i32)>,
    spawned: Set<(i32, i32)>,
    camera: (i32, i32),
    radius: int,
    budget: nat,
) -> (Seq<(i32, i32)>, Seq<(i32, i32)>)
    decreases queue.len(),
{
    if budget == 0 || queue.len() == 0 {
        (queue, Seq::empty())
    } else {
        let cell = queue.last();
        if !in_disc(cell, camera, radius) || spawned.contains(cell) {
            spawn_steps(queue.drop_last(), spawned, camera, radius, budget)
        } else {
            let rest = spawn_steps(
                queue.drop_last(),
                spawned.insert(cell),
                camera,
                radius,
                (budget - 1) as nat,
            );
            (rest.0, seq![cell] + rest.1)
        }
    }
}

/// The chunk that is spawned for a cell: its level of detail is that of its
/// distance band.
pub open spec fn fresh_chunk(cell: (i32, i32), camera: (i32, i32), levels: Seq<LodBand>) -> Chunk {
    Chunk {
        x: cell.0,
        z: cell.1,
        current_lod: lod_for(distance_sq(cell.0 as int, cell.1 as int, camera), levels),
    }
}

/// Every cell of the disc is spawned or waits in the queue.
pub open spec fn disc_covered(manager: ChunkManager, camera: (i32, i32)) -> bool {
    forall|c: (i32, i32)|
        in_disc(c, camera, manager.render_distance as int) && manager.render_distance >= 0
            ==> #[trigger] manager.spawned().contains(c) || manager.to_spawn@.contains(c)
}

proof fn lemma_disc_in_square(cell: (i32, i32), camera: (i32, i32), radius: int)
    requires
        radius >= 0,
        in_disc(cell, camera, radius),
    ensures
        camera.0 - radius <= cell.0 <= camera.0 + radius,
        camera.1 - radius <= cell.1 <= camera.1 + radius,
{
    let dx = cell.0 - camera.0;
    let dz = cell.1 - camera.1;
    assert(-radius <= dx <= radius && -radius <= dz <= radius) by (nonlinear_arith)
        requires
            radius >= 0,
            dx * dx + dz * dz <= radius * radius,
    ;
}

fn square(radius: i32) -> (r: i128)
    ensures
        r == radius * radius,
{
    let r: i128 = radius as i128;
    assert(0 <= r * r <= 0x4000_0000_0000_0000) by (nonlinear_arith)
        requires
            -0x8000_0000 <= r <= 0x7fff_ffff,
    ;
    r * r
}

/// The cells that a scan queues, in the order in which it meets them.
fn scan_disc(manager: &ChunkManager, camera: (i32, i32)) -> (cells: Vec<(i32, i32)>)
    requires
        i32::MIN <= camera.0 - manager.render_distance <= i32::MAX,
        i32::MIN <= camera.0 + manager.render_distance <= i32::MAX,
        i32::MIN <= camera.1 - manager.render_distance <= i32::MAX,
        i32::MIN <= camera.1 + manager.render_distance <= i32::MAX,
    ensures
        forall|c: (i32, i32)| #[trigger]
            cells@.contains(c) <==> (manager.render_distance >= 0 && in_disc(
                c,
                camera,
                manager.render_distance as int,
            ) && !manager.spawned().contains(c)),
        forall|i: int, j: int|
            0 <= i < j < cells@.len() ==> scanned_before(
                #[trigger] cells@[i],
                #[trigger] cells@[j],
            ),
{
    let radius: i32 = manager.render_distance;
    let limit: i128 = square(radius);
    let mut cells: Vec<(i32, i32)> = Vec::new();
    if radius < 0 {
        return cells;
    }
    let left: i64 = camera.0 as i64 - radius as i64;
    let right: i64 = camera.0 as i64 + radius as i64;
    let near: i64 = camera.1 as i64 - radius as i64;
    let far: i64 = camera.1 as i64 + radius as i64;
    let mut x: i64 = left;
    while x <= right
        invariant
            radius == manager.render_distance,
            radius >= 0,
            limit == radius * radius,
            i32::MIN <= left == camera.0 - radius,
            right == camera.0 + radius <= i32::MAX,
            i32::MIN <= near == camera.1 - radius,
            far == camera.1 + radius <= i32::MAX,
            left <= x <= right + 1,
            forall|c: (i32, i32)| #[trigger]
                cells@.contains(c) <==> (left <= c.0 < x && in_disc(c, camera, radius as int)
                    && !manager.spawned().contains(c)),
            forall|i: int, j: int|
                0 <= i < j < cells@.len() ==> scanned_before(
                    #[trigger] cells@[i],
                    #[trigger] cells@[j],
                ),
        decreases right + 1 - x,
    {
        let mut z: i64 = near;
        proof {
            assert forall|c: (i32, i32)| #[trigger]
                cells@.contains(c) <==> (((left <= c.0 < x) || (c.0 == x && c.1 < z)) && in_disc(
                    c,
                    camera,
                    radius as int,
                ) && !manager.spawned().contains(c)) by {
                if in_disc(c, camera, radius as int) {
                    lemma_disc_in_square(c, camera, radius as int);
                }
            }
        }
        while z <= far
            invariant
                radius == manager.render_distance,
                radius >= 0,
                limit == radius * radius,
                i32::MIN <= left == camera.0 - radius,
                right == camera.0 + radius <= i32::MAX,
                i32::MIN <= near == camera.1 - radius,
                far == camera.1 + radius <= i32::MAX,
                left <= x <= right,
                near <= z <= far + 1,
                forall|c: (i32, i32)| #[trigger]
                    cells@.contains(c) <==> (((left <= c.0 < x) || (c.0 == x && c.1 < z))
                        && in_disc(c, camera, radius as int) && !manager.spawned().contains(c)),
                forall|i: int, j: int|
                    0 <= i < j < cells@.len() ==> scanned_before(
                        #[trigger] cells@[i],
                        #[trigger] cells@[j],
                    ),
            decreases far + 1 - z,
        {
            let cell: (i32, i32) = (x as i32, z as i32);
            let ghost before = cells@;
            if chunk_distance_sq(cell.0, cell.1, camera) <= limit && !holds(
                &manager.spawned_chunks,
                cell,
            ) {
                cells.push(cell);
                proof {
                    assert(forall|i: int| 0 <= i < before.len() ==> before.contains(#[trigger] before[i]));
                    assert forall|c: (i32, i32)| cells@.contains(c) <==> (before.contains(c) || c
                        == cell) by {
                        if before.contains(c) {
                            let i = choose|i: int| 0 <= i < before.len() && before[i] == c;
                            assert(cells@[i] == c);
                        }
                        if c == cell {
                            assert(cells@[before.len() as int] == cell);
                        }
                    }
                }
            }
            proof {
                assert forall|c: (i32, i32)| #[trigger]
                    cells@.contains(c) <==> (((left <= c.0 < x) || (c.0 == x && c.1 < z + 1))
                        && in_disc(c, camera, radius as int) && !manager.spawned().contains(c)) by {
                    assert(before.contains(c) <==> (((left <= c.0 < x) || (c.0 == x && c.1 < z))
                        && in_disc(c, camera, radius as int) && !manager.spawned().contains(c)));
                    assert(c.0 == x && c.1 == z ==> c == cell);
                }
            }
            z = z + 1;
        }
        proof {
            assert forall|c: (i32, i32)| #[trigger]
                cells@.contains(c) <==> (left <= c.0 < x + 1 && in_disc(c, camera, radius as int)
                    && !manager.spawned().contains(c)) by {
                if in_disc(c, camera, radius as int) {
                    lemma_disc_in_square(c, camera, radius as int);
                }
            }
        }
        x = x + 1;
    }
    proof {
        assert forall|c: (i32, i32)| #[trigger]
            cells@.contains(c) <==> (in_disc(c, camera, radius as int)
                && !manager.spawned().contains(c)) by {
            if in_disc(c, camera, radius as int) {
                lemma_disc_in_square(c, camera, radius as int);
            }
        }
    }
    cells
}

/// The spawn queue of a fresh scan.
fn scan_for_queue(manager: &ChunkManager, camera: (i32, i32)) -> (queue: Vec<(i32, i32)>)
    requires
        i32::MIN <= camera.0 - manager.render_distance <= i32::MAX,
        i32::MIN <= camera.0 + manager.render_distance <= i32::MAX,
        i32::MIN <= camera.1 - manager.render_distance <= i32::MAX,
        i32::MIN <= camera.1 + manager.render_distance <= i32::MAX,
    ensures
        scan_queue(queue@, manager.spawned(), camera, manager.render_distance as int),
{
    let cells: Vec<(i32, i32)> = scan_disc(manager, camera);
    let mut keys: Vec<i128> = Vec::with_capacity(cells.len());
    let mut i: usize = 0;
    while i < cells.len()
        invariant
            i <= cells.len(),
            keys.len() == i,
            forall|n: int|
                0 <= n < i ==> #[trigger] keys[n] == -distance_sq(
                    cells[n].0 as int,
                    cells[n].1 as int,
                    camera,
                ),
        decreases cells.len() - i,
    {
        keys.push(-chunk_distance_sq(cells[i].0, cells[i].1, camera));
        i = i + 1;
    }
    let order: Vec<usize> = sorted_order(&keys);
    let mut queue: Vec<(i32, i32)> = Vec::with_capacity(order.len());
    let mut k: usize = 0;
    while k < order.len()
        invariant
            k <= order.len(),
            queue.len() == k,
            stable_order(keys@, order@),
            keys.len() == cells.len(),
            forall|n: int| 0 <= n < k ==> #[trigger] queue[n] == cells[order[n] as int],
        decreases order.len() - k,
    {
        queue.push(cells[order[k]]);
        k = k + 1;
    }
    proof {
        assert forall|c: (i32, i32)| #[trigger] queue@.contains(c) <==> cells@.contains(c) by {
            if queue@.contains(c) {
                let n = choose|n: int| 0 <= n < queue@.len() && queue@[n] == c;
                assert(cells@[order[n] as int] == c);
            }
            if cells@.contains(c) {
                let m = choose|m: int| 0 <= m < cells@.len() && cells@[m] == c;
                assert(order@.contains(m as usize));
                let n = choose|n: int| 0 <= n < order@.len() && order@[n] == m as usize;
                assert(queue@[n] == c);
            }
        }
        assert forall|i: int, j: int| 0 <= i < j < queue@.len() implies queued_before(
            #[trigger] queue@[i],
            #[trigger] queue@[j],
            camera,
        ) by {
            assert(precedes(keys@, order[i] as int, order[j] as int));
        }
    }
    queue
}

/// The camera's chunk is the one that the last scan was made from.
fn same_chunk(last: Option<(i32, i32)>, camera: (i32, i32)) -> (r: bool)
    ensures
        r == (last == Some(camera)),
{
    match last {
        Some(c) => c.0 == camera.0 && c.1 == camera.1,
        None => false,
    }
}

/// Each spawned cell was in range and not spawned before, none comes twice, and
/// there are no more of them than the budget; what the queue held is spawned,
/// still queued, or out of range.
pub proof fn spawning_is_sound(
    queue: Seq<(i32, i32)>,
    spawned: Set<(i32, i32)>,
    camera: (i32, i32),
    radius: int,
    budget: nat,
)
    ensures
        ({
            let (left, cells) = spawn_steps(queue, spawned, camera, radius, budget);
            &&& cells.len() <= budget
            &&& cells.no_duplicates()
            &&& forall|c: (i32, i32)| #[trigger]
                cells.contains(c) ==> in_disc(c, camera, radius) && !spawned.contains(c)
                    && queue.contains(c)
            &&& left.len() <= queue.len() && left == queue.take(left.len() as int)
            &&& forall|c: (i32, i32)| #[trigger]
                queue.contains(c) && in_disc(c, camera, radius) ==> spawned.contains(c)
                    || cells.contains(c) || left.contains(c)
            &&& (cells.len() == budget || left.len() == 0)
        }),
    decreases queue.len(),
{
    let (left, cells) = spawn_steps(queue, spawned, camera, radius, budget);
    if budget == 0 || queue.len() == 0 {
        assert(queue.take(queue.len() as int) =~= queue);
    } else {
        let cell = queue.last();
        let rest = queue.drop_last();
        assert forall|c: (i32, i32)| queue.contains(c) <==> (rest.contains(c) || c == cell) by {
            if queue.contains(c) {
                let i = choose|i: int| 0 <= i < queue.len() && queue[i] == c;
                if i < rest.len() {
                    assert(rest[i] == c);
                }
            }
            if rest.contains(c) {
                let i = choose|i: int| 0 <= i < rest.len() && rest[i] == c;
                assert(queue[i] == c);
            }
            if c == cell {
                assert(queue[queue.len() - 1] == c);
            }
        }
        if !in_disc(cell, camera, radius) || spawned.contains(cell) {
            spawning_is_sound(rest, spawned, camera, radius, budget);
        } else {
            spawning_is_sound(rest, spawned.insert(cell), camera, radius, (budget - 1) as nat);
            let tail = spawn_steps(
                rest,
                spawned.insert(cell),
                camera,
                radius,
                (budget - 1) as nat,
            ).1;
            assert(cells == seq![cell] + tail);
            assert forall|c: (i32, i32)| cells.contains(c) <==> (c == cell || tail.contains(c)) by {
                if tail.contains(c) {
                    let i = choose|i: int| 0 <= i < tail.len() && tail[i] == c;
                    assert(cells[i + 1] == c);
                }
                if c == cell {
                    assert(cells[0] == c);
                }
            }
            assert(!tail.contains(cell));
            assert(forall|i: int| 0 <= i < tail.len() ==> tail.contains(#[trigger] tail[i]));
        }
        assert(rest.take(left.len() as int) =~= queue.take(left.len() as int));
    }
}

/// From the queue of a scan, chunks are spawned nearest-first.
pub proof fn spawning_is_nearest_first(
    queue: Seq<(i32, i32)>,
    spawned: Set<(i32, i32)>,
    camera: (i32, i32),
    radius: int,
    budget: nat,
)
    requires
        forall|i: int, j: int|
            0 <= i < j < queue.len() ==> queued_before(
                #[trigger] queue[i],
                #[trigger] queue[j],
                camera,
            ),
    ensures
        ({
            let cells = spawn_steps(queue, spawned, camera, radius, budget).1;
            forall|i: int, j: int|
                0 <= i < j < cells.len() ==> queued_before(
                    #[trigger] cells[j],
                    #[trigger] cells[i],
                    camera,
                )
        }),
    decreases queue.len(),
{
    if budget == 0 || queue.len() == 0 {
    } else {
        let cell = queue.last();
        let rest = queue.drop_last();
        if !in_disc(cell, camera, radius) || spawned.contains(cell) {
            spawning_is_nearest_first(rest, spawned, camera, radius, budget);
            assert(spawn_steps(queue, spawned, camera, radius, budget) == spawn_steps(
                rest,
                spawned,
                camera,
                radius,
                budget,
            ));
        } else {
            let next = spawned.insert(cell);
            let less = (budget - 1) as nat;
            spawning_is_nearest_first(rest, next, camera, radius, less);
            spawning_is_sound(rest, next, camera, radius, less);
            let tail = spawn_steps(rest, next, camera, radius, less).1;
            assert forall|j: int| 0 <= j < tail.len() implies queued_before(
                #[trigger] tail[j],
                cell,
                camera,
            ) by {
                assert(tail.contains(tail[j]));
                let i = choose|i: int| 0 <= i < rest.len() && rest[i] == tail[j];
                assert(queue[i] == tail[j] && queue[queue.len() - 1] == cell);
            }
            let cells = spawn_steps(queue, spawned, camera, radius, budget).1;
            assert(cells == seq![cell] + tail);
            assert forall|i: int, j: int| 0 <= i < j < cells.len() implies queued_before(
                #[trigger] cells[j],
                #[trigger] cells[i],
                camera,
            ) by {
                assert(cells[j] == tail[j - 1]);
                if i > 0 {
                    assert(cells[i] == tail[i - 1]);
                }
            }
        }
    }
}

/// Re-scans the render disc when the camera enters a new chunk, queues missing
/// chunks nearest-first, then spawns up to `max_chunks_per_frame` of them. The
/// result lists the chunks to spawn, in order.
pub fn generate_chunks(
    manager: &mut ChunkManager,
    camera: Option<(i32, i32)>,
    settings: &WorldGenerationSettings,
) -> (chunks: Vec<Chunk>)
    requires
        camera matches Some(c) ==> {
            &&& i32::MIN <= c.0 - old(manager).render_distance <= i32::MAX
            &&& i32::MIN <= c.0 + old(manager).render_distance <= i32::MAX
            &&& i32::MIN <= c.1 - old(manager).render_distance <= i32::MAX
            &&& i32::MIN <= c.1 + old(manager).render_distance <= i32::MAX
        },
    ensures
        final(manager).render_distance == old(manager).render_distance,
        final(manager).lod_levels == old(manager).lod_levels,
        final(manager).lod_to_update == old(manager).lod_to_update,
        match camera {
            None => *final(manager) == *old(manager) && chunks@.len() == 0,
            Some(c) => {
                &&& final(manager).last_camera_chunk == Some(c)
                &&& exists|queue: Seq<(i32, i32)>|
                    {
                        &&& if old(manager).last_camera_chunk == Some(c) {
                            queue == old(manager).to_spawn@
                        } else {
                            scan_queue(
                                queue,
                                old(manager).spawned(),
                                c,
                                old(manager).render_distance as int,
                            )
                        }
                        &&& #[trigger] spawn_steps(
                            queue,
                            old(manager).spawned(),
                            c,
                            old(manager).render_distance as int,
                            settings.max_chunks_per_frame as nat,
                        ) == (
                            final(manager).to_spawn@,
                            chunks@.map_values(|k: Chunk| (k.x, k.z)),
                        )
                    }
                &&& forall|i: int|
                    0 <= i < chunks@.len() ==> #[trigger] chunks@[i] == fresh_chunk(
                        (chunks@[i].x, chunks@[i].z),
                        c,
                        old(manager).lod_levels@,
                    )
                &&& forall|s: (i32, i32)| #[trigger]
                    final(manager).spawned().contains(s) <==> (old(manager).spawned().contains(s)
                        || chunks@.map_values(|k: Chunk| (k.x, k.z)).contains(s))
                &&& (old(manager).last_camera_chunk != Some(c) || disc_covered(*old(manager), c))
                    ==> disc_covered(*final(manager), c)
            },
        },
{
    let mut chunks: Vec<Chunk> = Vec::new();
    let cam: (i32, i32) = match camera {
        Some(c) => c,
        None => {
            return chunks;
        },
    };
    if !same_chunk(manager.last_camera_chunk, cam) {
        manager.to_spawn = scan_for_queue(manager, cam);
        manager.last_camera_chunk = Some(cam);
    }
    let radius: i32 = manager.render_distance;
    let limit: i128 = square(radius);
    let max: usize = settings.max_chunks_per_frame;
    let ghost queue = manager.to_spawn@;
    let ghost before = old(manager).spawned();
    let ghost covered = disc_covered(*manager, cam);
    let ghost wanted = spawn_steps(queue, before, cam, radius as int, max as nat);
    assert(chunks@.map_values(|k: Chunk| (k.x, k.z)) =~= Seq::empty());
    assert(Seq::<(i32, i32)>::empty() + wanted.1 =~= wanted.1);
    let mut stop: bool = chunks.len() >= max;
    while !stop
        invariant
            manager.render_distance == radius,
            old(manager).render_distance == radius,
            manager.lod_levels == old(manager).lod_levels,
            manager.lod_to_update == old(manager).lod_to_update,
            manager.last_camera_chunk == Some(cam),
            limit == radius * radius,
            before == old(manager).spawned(),
            chunks.len() <= max,
            !stop ==> chunks.len() < max,
            wanted == spawn_steps(queue, before, cam, radius as int, max as nat),
            ({
                let rest = spawn_steps(
                    manager.to_spawn@,
                    manager.spawned(),
                    cam,
                    radius as int,
                    (max - chunks.len()) as nat,
                );
                &&& wanted.0 == rest.0
                &&& wanted.1 == chunks@.map_values(|k: Chunk| (k.x, k.z)) + rest.1
            }),
            stop ==> chunks.len() == max || manager.to_spawn@.len() == 0,
            forall|i: int|
                0 <= i < chunks@.len() ==> #[trigger] chunks@[i] == fresh_chunk(
                    (chunks@[i].x, chunks@[i].z),
                    cam,
                    old(manager).lod_levels@,
                ),
            forall|s: (i32, i32)| #[trigger]
                manager.spawned().contains(s) <==> (before.contains(s) || chunks@.map_values(
                    |k: Chunk| (k.x, k.z),
                ).contains(s)),
        decreases (if stop { 0int } else { 1 }), manager.to_spawn@.len(),
    {
        let ghost queue_before = manager.to_spawn@;
        let ghost spawned_before = manager.spawned();
        let ghost chunks_before = chunks@;
        match manager.to_spawn.pop() {
            None => {
                stop = true;
            },
            Some(cell) => {
                assert(manager.to_spawn@ =~= queue_before.drop_last());
                let d: i128 = chunk_distance_sq(cell.0, cell.1, cam);
                if d > limit || holds(&manager.spawned_chunks, cell) {
                } else {
                    insert(&mut manager.spawned_chunks, cell);
                    let lod: u32 = lod_for_distance_sq(d, manager);
                    chunks.push(Chunk { x: cell.0, z: cell.1, current_lod: lod });
                    if chunks.len() >= max {
                        stop = true;
                    }
                    proof {
                        let done = chunks_before.map_values(|k: Chunk| (k.x, k.z));
                        let now = chunks@.map_values(|k: Chunk| (k.x, k.z));
                        let rest = spawn_steps(
                            manager.to_spawn@,
                            manager.spawned(),
                            cam,
                            radius as int,
                            (max - chunks.len()) as nat,
                        ).1;
                        assert(now =~= done.push(cell));
                        assert(done + (seq![cell] + rest) =~= now + rest);
                        assert forall|s: (i32, i32)| now.contains(s) <==> (done.contains(s) || s
                            == cell) by {
                            if done.contains(s) {
                                let i = choose|i: int| 0 <= i < done.len() && done[i] == s;
                                assert(now[i] == s);
                            }
                            if s == cell {
                                assert(now[done.len() as int] == s);
                            }
                        }
                    }
                }
            },
        }
    }
    proof {
        assert(wanted.1 =~= chunks@.map_values(|k: Chunk| (k.x, k.z)));
        assert(wanted.0 == manager.to_spawn@);
        spawning_is_sound(queue, before, cam, radius as int, max as nat);
        if old(manager).last_camera_chunk != Some(cam) || disc_covered(*old(manager), cam) {
            assert forall|c: (i32, i32)|
                in_disc(c, cam, manager.render_distance as int) && manager.render_distance
                    >= 0 implies #[trigger] manager.spawned().contains(c)
                || manager.to_spawn@.contains(c) by {
                assert(before.contains(c) || queue.contains(c));
            }
        }
    }
    chunks
}

/// Squared distance of a recorded chunk from the camera.
pub open spec fn record_distance(record: ChunkRecord, camera: (i32, i32)) -> int {
    distance_sq(record.chunk.x as int, record.chunk.z as int, camera)
}

/// Each record's distance, as sort keys.
pub open spec fn record_distances(records: Seq<ChunkRecord>, camera: (i32, i32)) -> Seq<i128> {
    records.map_values(|r: ChunkRecord| record_distance(r, camera) as i128)
}

/// Where a pass over finished meshes stands: the positions still to poll are
/// those of `order` from `next` on.
pub struct MeshPass {
    pub order: Vec<usize>,
    pub next: usize,
    pub processed: usize,
    pub max: usize,
}

impl MeshPass {
    /// No more meshes were swapped in than the frame allows.
    pub open spec fn wf(self) -> bool {
        self.next <= self.order@.len() && self.processed <= self.max
    }

    /// The next position to poll, unless the frame's budget is spent or every
    /// task was polled.
    pub fn next(&mut self) -> (position: Option<usize>)
        requires
            old(self).wf(),
        ensures
            final(self).wf(),
            final(self).order == old(self).order,
            final(self).processed == old(self).processed,
            final(self).max == old(self).max,
            if old(self).processed < old(self).max && old(self).next < old(self).order@.len() {
                position == Some(old(self).order@[old(self).next as int]) && final(self).next
                    == old(self).next + 1
            } else {
                position is None && final(self).next == old(self).next
            },
    {
        if self.processed < self.max && self.next < self.order.len() {
            let position: usize = self.order[self.next];
            self.next = self.next + 1;
            Some(position)
        } else {
            None
        }
    }

    /// Records that the polled task was finished and its mesh swapped in.
    pub fn swapped_in(&mut self)
        requires
            old(self).wf(),
            old(self).processed < old(self).max,
        ensures
            final(self).wf(),
            final(self).order == old(self).order,
            final(self).next == old(self).next,
            final(self).max == old(self).max,
            final(self).processed == old(self).processed + 1,
    {
        self.processed = self.processed + 1;
    }
}

fn distances(records: &Vec<ChunkRecord>, camera: (i32, i32)) -> (keys: Vec<i128>)
    ensures
        keys@ == record_distances(records@, camera),
        forall|n: int|
            0 <= n < keys@.len() ==> #[trigger] keys@[n] == record_distance(records@[n], camera),
{
    let mut keys: Vec<i128> = Vec::with_capacity(records.len());
    let mut i: usize = 0;
    while i < records.len()
        invariant
            i <= records.len(),
            keys.len() == i,
            forall|n: int| 0 <= n < i ==> #[trigger] keys[n] == record_distance(records[n], camera),
        decreases records.len() - i,
    {
        keys.push(chunk_distance_sq(records[i].chunk.x, records[i].chunk.z, camera));
        i = i + 1;
    }
    assert(keys@ =~= record_distances(records@, camera));
    keys
}

/// Starts the pass that polls in-flight chunk tasks nearest-first, swaps finished
/// meshes in and reveals their chunks, at most `max_chunks_per_frame` of them.
/// Without a camera distances are taken from chunk `(0, 0)`.
pub fn apply_chunk_meshes(
    tasks: &Vec<ChunkRecord>,
    camera: Option<(i32, i32)>,
    settings: &WorldGenerationSettings,
) -> (pass: MeshPass)
    ensures
        pass.wf(),
        pass.next == 0,
        pass.processed == 0,
        pass.max == settings.max_chunks_per_frame,
        stable_order(
            record_distances(
                tasks@,
                match camera {
                    Some(c) => c,
                    None => (0i32, 0i32),
                },
            ),
            pass.order@,
        ),
{
    let cam: (i32, i32) = match camera {
        Some(c) => c,
        None => (0, 0),
    };
    let keys: Vec<i128> = distances(tasks, cam);
    MeshPass {
        order: sorted_order(&keys),
        next: 0,
        processed: 0,
        max: settings.max_chunks_per_frame,
    }
}

/// No two records carry the same entity.
pub open spec fn distinct_entities(records: Seq<ChunkRecord>) -> bool {
    forall|i: int, j: int|
        0 <= i < j < records.len() ==> (#[trigger] records[i]).entity != (
        #[trigger] records[j]).entity
}

/// The record at `i` is the entity's.
pub open spec fn is_record_of(records: Seq<ChunkRecord>, i: int, entity: u64) -> bool {
    0 <= i < records.len() && records[i].entity == entity
}

/// The level of detail that the record's distance calls for.
pub open spec fn desired_lod(record: ChunkRecord, camera: (i32, i32), levels: Seq<LodBand>) -> u32 {
    lod_for(record_distance(record, camera), levels)
}

/// The LOD queue after the camera crossed a boundary: the entities whose chunk
/// was built at another level than its band calls for, nearest first, equal
/// distances in the records' order.
pub open spec fn lod_queue(
    queue: Seq<u64>,
    records: Seq<ChunkRecord>,
    camera: (i32, i32),
    levels: Seq<LodBand>,
) -> bool {
    &&& forall|e: u64| #[trigger]
        queue.contains(e) <==> exists|i: int| #[trigger]
            is_record_of(records, i, e) && desired_lod(records[i], camera, levels)
                != records[i].chunk.current_lod
    &&& forall|m: int, n: int, i: int, j: int|
        0 <= m < n < queue.len() && #[trigger] is_record_of(records, i, queue[m])
            && #[trigger] is_record_of(records, j, queue[n]) ==> precedes(
            record_distances(records, camera),
            i,
            j,
        )
}

/// Rebuilding from the end of the LOD queue until `budget` rebuilds were started
/// or the queue is empty. An entity without a record, or already at the desired
/// level, is dropped. Gives the queue that is left, the records with their new
/// levels, and the rebuilds as (entity, level).
pub open spec fn lod_steps(
    queue: Seq<u64>,
    records: Seq<ChunkRecord>,
    camera: (i32, i32),
    levels: Seq<LodBand>,
    budget: nat,
) -> (Seq<u64>, Seq<ChunkRecord>, Seq<(u64, u32)>)
    decreases queue.len(),
{
    if budget == 0 || queue.len() == 0 {
        (queue, records, Seq::empty())
    } else {
        let entity = queue.last();
        let rest = queue.drop_last();
        if exists|i: int| is_record_of(records, i, entity) {
            let i = choose|i: int| is_record_of(records, i, entity);
            let desired = desired_lod(records[i], camera, levels);
            if desired == records[i].chunk.current_lod {
                lod_steps(rest, records, camera, levels, budget)
            } else {
                let updated = records.update(i, with_lod(records[i], desired));
                let more = lod_steps(rest, updated, camera, levels, (budget - 1) as nat);
                (more.0, more.1, seq![(entity, desired)] + more.2)
            }
        } else {
            lod_steps(rest, records, camera, levels, budget)
        }
    }
}

/// The record with its chunk at another level of detail.
pub open spec fn with_lod(record: ChunkRecord, lod: u32) -> ChunkRecord {
    ChunkRecord { chunk: Chunk { current_lod: lod, ..record.chunk }, ..record }
}

fn find_record(records: &Vec<ChunkRecord>, entity: u64) -> (found: Option<usize>)
    requires
        distinct_entities(records@),
    ensures
        match found {
            Some(i) => is_record_of(records@, i as int, entity) && i == choose|i: int|
                is_record_of(records@, i, entity),
            None => forall|i: int| !is_record_of(records@, i, entity),
        },
{
    let mut i: usize = 0;
    while i < records.len()
        invariant
            i <= records.len(),
            distinct_entities(records@),
            forall|n: int| n < i ==> !is_record_of(records@, n, entity),
        decreases records.len() - i,
    {
        if records[i].entity == entity {
            proof {
                assert(is_record_of(records@, i as int, entity));
                let c = choose|c: int| is_record_of(records@, c, entity);
                assert(is_record_of(records@, c, entity));
                if c < i {
                    assert(records@[c].entity != records@[i as int].entity);
                }
                if i < c {
                    assert(records@[i as int].entity != records@[c].entity);
                }
            }
            return Some(i);
        }
        i = i + 1;
    }
    None
}

/// The LOD queue of the current records.
fn scan_lods(manager: &ChunkManager, camera: (i32, i32), records: &Vec<ChunkRecord>) -> (queue: Vec<
    u64,
>)
    requires
        distinct_entities(records@),
    ensures
        lod_queue(queue@, records@, camera, manager.lod_levels@),
{
    let ghost levels = manager.lod_levels@;
    let mut picked: Vec<usize> = Vec::new();
    let mut keys: Vec<i128> = Vec::new();
    let mut i: usize = 0;
    while i < records.len()
        invariant
            i <= records.len(),
            levels == manager.lod_levels@,
            keys.len() == picked.len(),
            forall|n: int| 0 <= n < picked.len() ==> 0 <= #[trigger] picked[n] < i,
            forall|m: int, n: int|
                0 <= m < n < picked.len() ==> #[trigger] picked[m] < #[trigger] picked[n],
            forall|n: int|
                0 <= n < keys.len() ==> #[trigger] keys[n] == record_distance(
                    records[picked[n] as int],
                    camera,
                ),
            forall|k: usize|
                0 <= k < i ==> (#[trigger] picked@.contains(k) <==> desired_lod(
                    records[k as int],
                    camera,
                    levels,
                ) != records[k as int].chunk.current_lod),
        decreases records.len() - i,
    {
        let ghost before = picked@;
        assert(!before.contains(i)) by {
            assert(forall|n: int| 0 <= n < before.len() ==> before[n] == #[trigger] picked[n]);
        }
        let d: i128 = chunk_distance_sq(records[i].chunk.x, records[i].chunk.z, camera);
        if lod_for_distance_sq(d, manager) != records[i].chunk.current_lod {
            picked.push(i);
            keys.push(d);
            proof {
                assert forall|k: usize| picked@.contains(k) <==> (before.contains(k) || k == i) by {
                    if before.contains(k) {
                        let n = choose|n: int| 0 <= n < before.len() && before[n] == k;
                        assert(picked@[n] == k);
                    }
                    if k == i {
                        assert(picked@[before.len() as int] == k);
                    }
                }
            }
        }
        proof {
            assert forall|k: usize| 0 <= k < i + 1 implies (#[trigger] picked@.contains(k)
                <==> desired_lod(records[k as int], camera, levels)
                != records[k as int].chunk.current_lod) by {
                assert(k < i ==> (before.contains(k) <==> desired_lod(
                    records[k as int],
                    camera,
                    levels,
                ) != records[k as int].chunk.current_lod));
            }
        }
        i = i + 1;
    }
    let order: Vec<usize> = sorted_order(&keys);
    let mut queue: Vec<u64> = Vec::with_capacity(order.len());
    let mut k: usize = 0;
    while k < order.len()
        invariant
            k <= order.len(),
            queue.len() == k,
            stable_order(keys@, order@),
            keys.len() == picked.len(),
            forall|n: int| 0 <= n < picked.len() ==> #[trigger] picked[n] < records.len(),
            forall|n: int|
                0 <= n < k ==> #[trigger] queue[n] == records[picked[order[n] as int] as int].entity,
        decreases order.len() - k,
    {
        queue.push(records[picked[order[k]]].entity);
        k = k + 1;
    }
    proof {
        assert forall|e: u64| #[trigger]
            queue@.contains(e) <==> exists|i: int| #[trigger]
                is_record_of(records@, i, e) && desired_lod(records@[i], camera, levels)
                    != records@[i].chunk.current_lod by {
            if queue@.contains(e) {
                let n = choose|n: int| 0 <= n < queue@.len() && queue@[n] == e;
                let p = picked[order[n] as int];
                assert(picked@.contains(p));
                assert(is_record_of(records@, p as int, e));
            }
            if exists|i: int| #[trigger]
                is_record_of(records@, i, e) && desired_lod(records@[i], camera, levels)
                    != records@[i].chunk.current_lod {
                let i = choose|i: int| #[trigger]
                    is_record_of(records@, i, e) && desired_lod(records@[i], camera, levels)
                        != records@[i].chunk.current_lod;
                assert(picked@.contains(i as usize));
                let p = choose|p: int| 0 <= p < picked@.len() && picked@[p] == i as usize;
                assert(order@.contains(p as usize));
                let n = choose|n: int| 0 <= n < order@.len() && order@[n] == p as usize;
                assert(queue@[n] == e);
            }
        }
        let all = record_distances(records@, camera);
        assert forall|m: int, n: int, i: int, j: int|
            0 <= m < n < queue@.len() && #[trigger] is_record_of(records@, i, queue@[m])
                && #[trigger] is_record_of(records@, j, queue@[n]) implies precedes(all, i, j) by {
            let a = order[m] as int;
            let b = order[n] as int;
            assert(precedes(keys@, a, b));
            assert(picked[a] < records.len() && picked[b] < records.len());
            assert(is_record_of(records@, picked[a] as int, queue@[m]));
            assert(is_record_of(records@, picked[b] as int, queue@[n]));
            assert(i == picked[a] as int) by {
                if i < picked[a] as int {
                    assert(records@[i].entity != records@[picked[a] as int].entity);
                }
                if i > picked[a] as int {
                    assert(records@[picked[a] as int].entity != records@[i].entity);
                }
            }
            assert(j == picked[b] as int) by {
                if j < picked[b] as int {
                    assert(records@[j].entity != records@[picked[b] as int].entity);
                }
                if j > picked[b] as int {
                    assert(records@[picked[b] as int].entity != records@[j].entity);
                }
            }
            assert(keys[a] == record_distance(records@[i], camera));
            assert(keys[b] == record_distance(records@[j], camera));
            assert(all[i] == keys[a] && all[j] == keys[b]);
        }
    }
    queue
}

/// When the camera crosses a chunk boundary, queues the chunks whose distance
/// band now calls for a different subdivision level; then starts up to
/// `max_chunks_per_frame` rebuilds, taken from the end of the queue. `records` are
/// the chunks that are not mid-build; each rebuilt one takes its new level. The
/// result lists the rebuilds as (entity, level).
pub fn update_chunk_lod(
    manager: &mut ChunkManager,
    last_camera: &mut Option<(i32, i32)>,
    camera: Option<(i32, i32)>,
    records: &mut Vec<ChunkRecord>,
    settings: &WorldGenerationSettings,
) -> (rebuilds: Vec<(u64, u32)>)
    requires
        distinct_entities(old(records)@),
    ensures
        final(manager).spawned_chunks == old(manager).spawned_chunks,
        final(manager).last_camera_chunk == old(manager).last_camera_chunk,
        final(manager).to_spawn == old(manager).to_spawn,
        final(manager).render_distance == old(manager).render_distance,
        final(manager).lod_levels == old(manager).lod_levels,
        distinct_entities(final(records)@),
        match camera {
            None => *final(manager) == *old(manager) && *final(last_camera) == *old(last_camera)
                && final(records)@ == old(records)@ && rebuilds@.len() == 0,
            Some(c) => {
                &&& *final(last_camera) == Some(c)
                &&& exists|queue: Seq<u64>|
                    {
                        &&& if *old(last_camera) == Some(c) {
                            queue == old(manager).lod_to_update@
                        } else {
                            lod_queue(queue, old(records)@, c, old(manager).lod_levels@)
                        }
                        &&& #[trigger] lod_steps(
                            queue,
                            old(records)@,
                            c,
                            old(manager).lod_levels@,
                            settings.max_chunks_per_frame as nat,
                        ) == (final(manager).lod_to_update@, final(records)@, rebuilds@)
                    }
            },
        },
{
    let mut rebuilds: Vec<(u64, u32)> = Vec::new();
    let cam: (i32, i32) = match camera {
        Some(c) => c,
        None => {
            return rebuilds;
        },
    };
    if !same_chunk(*last_camera, cam) {
        *last_camera = Some(cam);
        manager.lod_to_update = scan_lods(manager, cam, records);
    }
    let max: usize = settings.max_chunks_per_frame;
    let ghost queue = manager.lod_to_update@;
    let ghost levels = manager.lod_levels@;
    let ghost wanted = lod_steps(queue, records@, cam, levels, max as nat);
    assert(rebuilds@ + wanted.2 =~= wanted.2);
    let mut stop: bool = max == 0;
    while !stop
        invariant
            manager.spawned_chunks == old(manager).spawned_chunks,
            manager.last_camera_chunk == old(manager).last_camera_chunk,
            manager.to_spawn == old(manager).to_spawn,
            manager.render_distance == old(manager).render_distance,
            manager.lod_levels == old(manager).lod_levels,
            levels == manager.lod_levels@,
            distinct_entities(records@),
            rebuilds.len() <= max,
            !stop ==> rebuilds.len() < max,
            ({
                let rest = lod_steps(
                    manager.lod_to_update@,
                    records@,
                    cam,
                    levels,
                    (max - rebuilds.len()) as nat,
                );
                &&& wanted.0 == rest.0
                &&& wanted.1 == rest.1
                &&& wanted.2 == rebuilds@ + rest.2
            }),
            stop ==> rebuilds.len() == max || manager.lod_to_update@.len() == 0,
        decreases (if stop { 0int } else { 1 }), manager.lod_to_update@.len(),
    {
        let ghost queue_before = manager.lod_to_update@;
        let ghost rebuilds_before = rebuilds@;
        let ghost records_before = records@;
        match manager.lod_to_update.pop() {
            None => {
                stop = true;
            },
            Some(entity) => {
                assert(manager.lod_to_update@ =~= queue_before.drop_last());
                match find_record(records, entity) {
                    None => {},
                    Some(i) => {
                        let record: ChunkRecord = records[i];
                        let d: i128 = chunk_distance_sq(record.chunk.x, record.chunk.z, cam);
                        let desired: u32 = lod_for_distance_sq(d, manager);
                        if desired != record.chunk.current_lod {
                            let updated: ChunkRecord = ChunkRecord {
                                entity: record.entity,
                                chunk: Chunk {
                                    x: record.chunk.x,
                                    z: record.chunk.z,
                                    current_lod: desired,
                                },
                            };
                            records.set(i, updated);
                            rebuilds.push((entity, desired));
                            if rebuilds.len() >= max {
                                stop = true;
                            }
                            proof {
                                let rest = lod_steps(
                                    manager.lod_to_update@,
                                    records@,
                                    cam,
                                    levels,
                                    (max - rebuilds.len()) as nat,
                                ).2;
                                assert(rebuilds_before + (seq![(entity, desired)] + rest)
                                    =~= rebuilds@ + rest);
                            }
                        }
                    },
                }
            },
        }
    }
    assert(rebuilds@ + Seq::<(u64, u32)>::empty() =~= rebuilds@);
    rebuilds
}

/// No more rebuilds start than the budget allows; each takes a recorded chunk to
/// the level that its band calls for, and no other record changes.
pub proof fn rebuilding_is_sound(
    queue: Seq<u64>,
    records: Seq<ChunkRecord>,
    camera: (i32, i32),
    levels: Seq<LodBand>,
    budget: nat,
)
    requires
        distinct_entities(records),
    ensures
        ({
            let (left, after, rebuilds) = lod_steps(queue, records, camera, levels, budget);
            &&& rebuilds.len() <= budget
            &&& left.len() <= queue.len()
            &&& (rebuilds.len() == budget || left.len() == 0)
            &&& distinct_entities(after)
            &&& after.len() == records.len()
            &&& forall|i: int|
                0 <= i < records.len() ==> #[trigger] after[i] == records[i] || after[i]
                    == with_lod(records[i], desired_lod(records[i], camera, levels))
        }),
    decreases queue.len(),
{
    if budget == 0 || queue.len() == 0 {
    } else {
        let entity = queue.last();
        let rest = queue.drop_last();
        if exists|i: int| is_record_of(records, i, entity) {
            let i = choose|i: int| is_record_of(records, i, entity);
            let desired = desired_lod(records[i], camera, levels);
            if desired == records[i].chunk.current_lod {
                rebuilding_is_sound(rest, records, camera, levels, budget);
            } else {
                let updated = records.update(i, with_lod(records[i], desired));
                rebuilding_is_sound(rest, updated, camera, levels, (budget - 1) as nat);
            }
        } else {
            rebuilding_is_sound(rest, records, camera, levels, budget);
        }
    }
}

/// The chunk is past the radius at which chunks are dropped, one more than the
/// view radius.
pub open spec fn out_of_bounds(record: ChunkRecord, camera: (i32, i32), radius: int) -> bool {
    record_distance(record, camera) > (radius + 1) * (radius + 1)
}

/// The record at `a` is dropped before the one at `b`: farther first, equal
/// distances in the records' order.
pub open spec fn dropped_before(
    records: Seq<ChunkRecord>,
    camera: (i32, i32),
    a: int,
    b: int,
) -> bool {
    let da = record_distance(records[a], camera);
    let db = record_distance(records[b], camera);
    da > db || (da == db && a < b)
}

/// Drops chunks past `render_distance + 1`, farthest-first, at most twice
/// `max_chunks_per_frame` of them. The result lists their positions in `records`.
pub fn despawn_out_of_bounds_chunks(
    manager: &mut ChunkManager,
    camera: Option<(i32, i32)>,
    records: &Vec<ChunkRecord>,
    settings: &WorldGenerationSettings,
) -> (dropped: Vec<usize>)
    requires
        old(manager).render_distance < i32::MAX,
        settings.max_chunks_per_frame <= usize::MAX / 2,
    ensures
        final(manager).last_camera_chunk == old(manager).last_camera_chunk,
        final(manager).to_spawn == old(manager).to_spawn,
        final(manager).lod_to_update == old(manager).lod_to_update,
        final(manager).render_distance == old(manager).render_distance,
        final(manager).lod_levels == old(manager).lod_levels,
        forall|c: (i32, i32)| #[trigger]
            final(manager).spawned().contains(c) <==> (old(manager).spawned().contains(c)
                && forall|n: int|
                0 <= n < dropped@.len() ==> (
                    records@[#[trigger] dropped@[n] as int].chunk.x,
                    records@[dropped@[n] as int].chunk.z,
                ) != c),
        match camera {
            None => dropped@.len() == 0 && *final(manager) == *old(manager),
            Some(cam) => {
                let radius = old(manager).render_distance as int;
                &&& dropped@.len() <= 2 * settings.max_chunks_per_frame
                &&& forall|n: int|
                    0 <= n < dropped@.len() ==> (#[trigger] dropped@[n]) < records@.len()
                        && out_of_bounds(records@[dropped@[n] as int], cam, radius)
                &&& forall|m: int, n: int|
                    0 <= m < n < dropped@.len() ==> dropped_before(
                        records@,
                        cam,
                        #[trigger] dropped@[m] as int,
                        #[trigger] dropped@[n] as int,
                    )
                &&& forall|p: usize|
                    p < records@.len() && out_of_bounds(records@[p as int], cam, radius) ==> (
                    #[trigger] dropped@.contains(p) || (dropped@.len() == 2
                        * settings.max_chunks_per_frame && forall|n: int|
                        0 <= n < dropped@.len() ==> dropped_before(
                            records@,
                            cam,
                            #[trigger] dropped@[n] as int,
                            p as int,
                        )))
            },
        },
{
    let mut dropped: Vec<usize> = Vec::new();
    let cam: (i32, i32) = match camera {
        Some(c) => c,
        None => {
            return dropped;
        },
    };
    let radius: i32 = manager.render_distance;
    let limit: i128 = square(radius + 1);
    let mut picked: Vec<usize> = Vec::new();
    let mut keys: Vec<i128> = Vec::new();
    let mut i: usize = 0;
    while i < records.len()
        invariant
            i <= records.len(),
            limit == (radius + 1) * (radius + 1),
            keys.len() == picked.len(),
            forall|n: int| 0 <= n < picked.len() ==> 0 <= #[trigger] picked[n] < i,
            forall|m: int, n: int|
                0 <= m < n < picked.len() ==> #[trigger] picked[m] < #[trigger] picked[n],
            forall|n: int|
                0 <= n < keys.len() ==> #[trigger] keys[n] == -record_distance(
                    records[picked[n] as int],
                    cam,
                ),
            forall|k: usize|
                0 <= k < i ==> (#[trigger] picked@.contains(k) <==> out_of_bounds(
                    records[k as int],
                    cam,
                    radius as int,
                )),
        decreases records.len() - i,
    {
        let ghost before = picked@;
        assert(!before.contains(i)) by {
            assert(forall|n: int| 0 <= n < before.len() ==> before[n] == #[trigger] picked[n]);
        }
        let d: i128 = chunk_distance_sq(records[i].chunk.x, records[i].chunk.z, cam);
        if d > limit {
            picked.push(i);
            keys.push(-d);
            proof {
                assert forall|k: usize| picked@.contains(k) <==> (before.contains(k) || k == i) by {
                    if before.contains(k) {
                        let n = choose|n: int| 0 <= n < before.len() && before[n] == k;
                        assert(picked@[n] == k);
                    }
                    if k == i {
                        assert(picked@[before.len() as int] == k);
                    }
                }
            }
        }
        proof {
            assert forall|k: usize| 0 <= k < i + 1 implies (#[trigger] picked@.contains(k)
                <==> out_of_bounds(records[k as int], cam, radius as int)) by {
                assert(k < i ==> (before.contains(k) <==> out_of_bounds(
                    records[k as int],
                    cam,
                    radius as int,
                )));
            }
        }
        i = i + 1;
    }
    let order: Vec<usize> = sorted_order(&keys);
    let cap: usize = settings.max_chunks_per_frame * 2;
    let mut k: usize = 0;
    while k < order.len() && k < cap
        invariant
            k <= order.len(),
            k <= cap,
            dropped.len() == k,
            stable_order(keys@, order@),
            keys.len() == picked.len(),
            forall|n: int| 0 <= n < picked.len() ==> #[trigger] picked[n] < records.len(),
            forall|n: int| 0 <= n < k ==> #[trigger] dropped[n] == picked[order[n] as int],
            manager.last_camera_chunk == old(manager).last_camera_chunk,
            manager.to_spawn == old(manager).to_spawn,
            manager.lod_to_update == old(manager).lod_to_update,
            manager.render_distance == old(manager).render_distance,
            manager.lod_levels == old(manager).lod_levels,
            forall|c: (i32, i32)| #[trigger]
                manager.spawned().contains(c) <==> (old(manager).spawned().contains(c)
                    && forall|n: int|
                    0 <= n < dropped@.len() ==> (
                        records@[#[trigger] dropped@[n] as int].chunk.x,
                        records@[dropped@[n] as int].chunk.z,
                    ) != c),
        decreases order.len() - k,
    {
        let p: usize = picked[order[k]];
        let ghost spawned_before = manager.spawned();
        let ghost dropped_so_far = dropped@;
        let cell: (i32, i32) = (records[p].chunk.x, records[p].chunk.z);
        remove(&mut manager.spawned_chunks, cell);
        dropped.push(p);
        proof {
            assert forall|c: (i32, i32)| #[trigger]
                manager.spawned().contains(c) <==> (old(manager).spawned().contains(c)
                    && forall|n: int|
                    0 <= n < dropped@.len() ==> (
                        records@[#[trigger] dropped@[n] as int].chunk.x,
                        records@[dropped@[n] as int].chunk.z,
                    ) != c) by {
                assert(manager.spawned().contains(c) <==> (spawned_before.contains(c) && c
                    != cell));
                if manager.spawned().contains(c) {
                    assert forall|n: int| 0 <= n < dropped@.len() implies (
                        records@[#[trigger] dropped@[n] as int].chunk.x,
                        records@[dropped@[n] as int].chunk.z,
                    ) != c by {
                        if n < k {
                            assert(dropped@[n] == dropped_so_far[n]);
                        }
                    }
                } else {
                    if spawned_before.contains(c) {
                        assert(dropped@[k as int] == p);
                    } else if old(manager).spawned().contains(c) {
                        let n = choose|n: int|
                            0 <= n < dropped_so_far.len() && (
                                records@[#[trigger] dropped_so_far[n] as int].chunk.x,
                                records@[dropped_so_far[n] as int].chunk.z,
                            ) == c;
                        assert(dropped@[n] == dropped_so_far[n]);
                    }
                }
            }
        }
        k = k + 1;
    }
    proof {
        assert forall|n: int| 0 <= n < dropped@.len() implies (#[trigger] dropped@[n])
            < records@.len() && out_of_bounds(
            records@[dropped@[n] as int],
            cam,
            radius as int,
        ) by {
            assert(picked@.contains(picked[order[n] as int]));
        }
        assert forall|m: int, n: int|
            0 <= m < order@.len() && 0 <= n < order@.len() && m < n implies dropped_before(
            records@,
            cam,
            picked[#[trigger] order@[m] as int] as int,
            picked[#[trigger] order@[n] as int] as int,
        ) by {
            assert(precedes(keys@, order@[m] as int, order@[n] as int));
        }
        assert forall|p: usize|
            p < records@.len() && out_of_bounds(records@[p as int], cam, radius as int) implies (
        #[trigger] dropped@.contains(p) || (dropped@.len() == 2 * settings.max_chunks_per_frame
            && forall|n: int|
            0 <= n < dropped@.len() ==> dropped_before(
                records@,
                cam,
                #[trigger] dropped@[n] as int,
                p as int,
            ))) by {
            assert(picked@.contains(p));
            let q = choose|q: int| 0 <= q < picked@.len() && picked@[q] == p;
            assert(order@.contains(q as usize));
            let m = choose|m: int| 0 <= m < order@.len() && order@[m] == q as usize;
            if m < k {
                assert(dropped@[m] == p);
            } else {
                assert(dropped@.len() == cap);
                assert forall|n: int| 0 <= n < dropped@.len() implies dropped_before(
                    records@,
                    cam,
                    #[trigger] dropped@[n] as int,
                    p as int,
                ) by {
                    assert(dropped@[n] == picked[order@[n] as int]);
                    assert(n < m);
                }
            }
        }
    }
    dropped
}

/// A chunk in view is never dropped: the drop radius is wider than the view
/// radius, so a camera that stays put does not spawn and drop the same chunk.
pub proof fn chunks_in_view_are_kept(record: ChunkRecord, camera: (i32, i32), radius: int)
    requires
        radius >= 0,
        in_disc((record.chunk.x, record.chunk.z), camera, radius),
    ensures
        !out_of_bounds(record, camera, radius),
{
    assert(radius * radius <= (radius + 1) * (radius + 1)) by (nonlinear_arith)
        requires
            radius >= 0,
    ;
}

/// Span for which the configuration must sit unchanged before a rebuild fires:
/// a quarter of a second, in nanoseconds.
pub const REGEN_DEBOUNCE: u64 = 250_000_000;

/// The rebuild debouncer: the time left before a pending rebuild, and the settings
/// that were seen last.
#[derive(Clone, Copy, Debug, PartialEq, Eq)]
pub struct RegenState {
    pub pending: Option<u64>,
    pub seen: Option<WorldGenConfig>,
}

/// What is pending once the settings of a frame were seen: a change of the land arms
/// the rebuild anew; a change of what is only streamed does not.
pub open spec fn armed(state: RegenState, last: WorldGenConfig, config: WorldGenConfig) -> Option<
    u64,
> {
    if same_land(last, config) {
        state.pending
    } else {
        Some(REGEN_DEBOUNCE)
    }
}

/// One frame of the debouncer: the state it leaves, and whether the world is
/// rebuilt. The first sighting of the settings is setup, not a change.
pub open spec fn regen_step(state: RegenState, config: WorldGenConfig, delta: u64) -> (
    RegenState,
    bool,
) {
    match state.seen {
        None => (RegenState { seen: Some(config), ..state }, false),
        Some(last) => match armed(state, last, config) {
            None => (RegenState { pending: None, seen: Some(config) }, false),
            Some(remaining) => if remaining > delta {
                (
                    RegenState {
                        pending: Some((remaining - delta) as u64),
                        seen: Some(config),
                    },
                    false,
                )
            } else {
                (RegenState { pending: None, seen: Some(config) }, true)
            },
        },
    }
}

/// Mirrors changed streaming parameters into the running ones, and decides
/// whether this frame rebuilds the world: once the land's settings changed and then
/// stayed as they are for the debounce span. A rebuild forgets every chunk, so that
/// the next [`generate_chunks`] scans from scratch.
pub fn regenerate_terrain(
    state: &mut RegenState,
    changed: bool,
    config: &WorldGenConfig,
    delta: u64,
    manager: &mut ChunkManager,
    settings: &mut WorldGenerationSettings,
) -> (rebuild: bool)
    ensures
        (*final(state), rebuild) == regen_step(*old(state), *config, delta),
        final(settings).max_chunks_per_frame == if changed {
            config.max_chunks_per_frame
        } else {
            old(settings).max_chunks_per_frame
        },
        final(manager).render_distance == if changed {
            config.render_distance
        } else {
            old(manager).render_distance
        },
        final(manager).lod_levels == if changed {
            config.lod_levels
        } else {
            old(manager).lod_levels
        },
        if rebuild {
            &&& final(manager).spawned() == Set::<(i32, i32)>::empty()
            &&& final(manager).to_spawn@.len() == 0
            &&& final(manager).lod_to_update@.len() == 0
            &&& final(manager).last_camera_chunk is None
        } else {
            &&& final(manager).spawned_chunks == old(manager).spawned_chunks
            &&& final(manager).to_spawn == old(manager).to_spawn
            &&& final(manager).lod_to_update == old(manager).lod_to_update
            &&& final(manager).last_camera_chunk == old(manager).last_camera_chunk
        },
{
    if changed {
        manager.render_distance = config.render_distance;
        manager.lod_levels = config.lod_levels;
        settings.max_chunks_per_frame = config.max_chunks_per_frame;
    }
    let last: WorldGenConfig = match state.seen {
        Some(last) => last,
        None => {
            state.seen = Some(*config);
            return false;
        },
    };
    state.seen = Some(*config);
    if !last.makes_same_land(config) {
        state.pending = Some(REGEN_DEBOUNCE);
    }
    match state.pending {
        None => {
            return false;
        },
        Some(remaining) => {
            if remaining > delta {
                state.pending = Some(remaining - delta);
                return false;
            }
        },
    }
    state.pending = None;
    clear(&mut manager.spawned_chunks);
    manager.to_spawn.clear();
    manager.lod_to_update.clear();
    manager.last_camera_chunk = None;
    true
}

/// Settings that only stream the same land differently never rebuild it, nor hold a
/// rebuild up.
pub proof fn streaming_changes_do_not_rebuild(
    state: RegenState,
    last: WorldGenConfig,
    config: WorldGenConfig,
    delta: u64,
)
    requires
        state.seen == Some(last),
        same_land(last, config),
    ensures
        state.pending is None ==> regen_step(state, config, delta) == (
            RegenState { pending: None, seen: Some(config) },
            false,
        ),
        regen_step(state, config, delta).1 == regen_step(state, last, delta).1,
        regen_step(state, config, delta).0.pending == regen_step(state, last, delta).0.pending,
{
}

/// The state of the debouncer after a run of frames, each given by its settings and
/// how long it took; and whether any of them rebuilt the world.
pub open spec fn regen_run(state: RegenState, frames: Seq<(WorldGenConfig, u64)>) -> (
    RegenState,
    bool,
)
    decreases frames.len(),
{
    if frames.len() == 0 {
        (state, false)
    } else {
        let first = regen_step(state, frames[0].0, frames[0].1);
        let rest = regen_run(first.0, frames.skip(1));
        (rest.0, first.1 || rest.1)
    }
}

/// Time that a run of frames takes.
pub open spec fn elapsed(frames: Seq<(WorldGenConfig, u64)>) -> int
    decreases frames.len(),
{
    if frames.len() == 0 {
        0
    } else {
        frames[0].1 + elapsed(frames.skip(1))
    }
}

/// After a change, frames that leave the land as it is rebuild the world once they
/// add up to the debounce span, and not before.
pub proof fn rebuild_waits_for_quiet(
    state: RegenState,
    remaining: u64,
    last: WorldGenConfig,
    frames: Seq<(WorldGenConfig, u64)>,
)
    requires
        state == (RegenState { pending: Some(remaining), seen: Some(last) }),
        remaining > 0,
        forall|i: int| 0 <= i < frames.len() ==> same_land(last, (#[trigger] frames[i]).0),
    ensures
        regen_run(state, frames).1 <==> elapsed(frames) >= remaining,
    decreases frames.len(),
{
    if frames.len() > 0 {
        let rest = frames.skip(1);
        let config = frames[0].0;
        assert forall|i: int| 0 <= i < rest.len() implies same_land(
            config,
            (#[trigger] rest[i]).0,
        ) by {
            assert(rest[i] == frames[i + 1]);
            assert(same_land(last, config));
        }
        if remaining > frames[0].1 {
            let left = (remaining - frames[0].1) as u64;
            rebuild_waits_for_quiet(
                RegenState { pending: Some(left), seen: Some(config) },
                left,
                config,
                rest,
            );
        } else {
            lemma_elapsed_nonneg(rest);
        }
    }
}

proof fn lemma_elapsed_nonneg(frames: Seq<(WorldGenConfig, u64)>)
    ensures
        elapsed(frames) >= 0,
    decreases frames.len(),
{
    if frames.len() > 0 {
        lemma_elapsed_nonneg(frames.skip(1));
    }
}

}
