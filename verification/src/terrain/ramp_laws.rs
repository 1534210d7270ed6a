//! How runways shape the ground around them, and which of them are there: laws over
//! points, runways and cameras.

use super::hash::{avalanche, hash_of_cell};
use super::runway::{
    apron_distance, beyond_range, cell_in_world, dropped, falloff, falloff_is_a_fraction,
    falloff_is_monotone, flattened, frame_point, heading_tens, ident_of, in_range, kept,
    level_weight, near_camera, nearest_cell, painted_number, paved, placed, placed_at, raised,
    site_of, strongest, with_runways, without_slabs, RunwayInstance, RunwaySite, RunwaySlab, FAR,
    HALF_TURN,
};
use crate::fixed::{clamped, root_exists, ONE};
use vstd::prelude::*;

verus! {

/// Around one runway the ground has gone the runway's weight of the way from its
/// natural height to the runway's: clearly between the two on the ramp, natural where
/// the runway has no weight, level with it where it has all.
pub proof fn ground_ramps_to_the_runway(r: RunwayInstance, point: (i64, i64), natural: int)
    ensures
        ({
            let ground = flattened(seq![r], seq![point], natural);
            let w = level_weight(point.0 as int, point.1 as int);
            let way = r.elevation - natural;
            let gone = ground - natural;
            &&& 0 <= w <= ONE
            &&& gone * ONE <= way * w < (gone + 1) * ONE
            &&& w == 0 ==> ground == natural
            &&& w == ONE ==> ground == r.elevation
            &&& 0 < w < ONE && way * w >= ONE && way * (ONE - w) >= ONE ==> natural < ground
                < r.elevation
            &&& 0 < w < ONE && way * w <= -ONE && way * (ONE - w) <= -ONE ==> r.elevation < ground
                < natural
        }),
{
    let runways = seq![r];
    let points = seq![point];
    lemma_weight(point.0 as int, point.1 as int);
    let w = level_weight(point.0 as int, point.1 as int);
    assert(runways.drop_last() =~= Seq::empty());
    assert(strongest(runways.drop_last(), points) == (0int, 0int));
    let way = r.elevation - natural;
    assert(way * (ONE - w) == way * ONE - way * w) by (nonlinear_arith);
    assert(way * 0 == 0);
    let best = strongest(runways, points);
    assert((best.1 - natural) * 0 == 0);
}

/// Two points on the ramp of one runway that differ by a little in weight differ by as
/// little in height: the ramp has no step.
pub proof fn ramps_have_no_step(r: RunwayInstance, a: (i64, i64), b: (i64, i64), natural: int)
    requires
        level_weight(a.0 as int, a.1 as int) <= level_weight(b.0 as int, b.1 as int),
        r.elevation >= natural,
    ensures
        ({
            let low = flattened(seq![r], seq![a], natural);
            let high = flattened(seq![r], seq![b], natural);
            let step = level_weight(b.0 as int, b.1 as int) - level_weight(a.0 as int, a.1 as int);
            &&& low <= high
            &&& (high - low - 1) * ONE <= (r.elevation - natural) * step <= (high - low + 1) * ONE
        }),
{
    ground_ramps_to_the_runway(r, a, natural);
    ground_ramps_to_the_runway(r, b, natural);
    let way = r.elevation - natural;
    let (x, y) = (level_weight(a.0 as int, a.1 as int), level_weight(b.0 as int, b.1 as int));
    assert(way * (y - x) == way * y - way * x && way * (y - x) >= 0) by (nonlinear_arith)
        requires
            way >= 0,
            x <= y,
    ;
}

proof fn lemma_weight(lx: int, lz: int)
    ensures
        0 <= level_weight(lx, lz) <= ONE,
{
    falloff_is_a_fraction(clamped(apron_distance(lx, lz) / 600, 0, ONE as int));
}

/// Where several runways reach a point the strongest of them counts, and it alone: the
/// ground is what that one would make of it. Where none reaches it the ground is natural.
pub proof fn strongest_runway_wins(
    runways: Seq<RunwayInstance>,
    points: Seq<(i64, i64)>,
    natural: int,
)
    requires
        points.len() == runways.len(),
    ensures
        (forall|i: int|
            0 <= i < runways.len() ==> level_weight(
                (#[trigger] points[i]).0 as int,
                points[i].1 as int,
            ) == 0) ==> flattened(runways, points, natural) == natural,
        (exists|i: int|
            0 <= i < runways.len() && level_weight(
                (#[trigger] points[i]).0 as int,
                points[i].1 as int,
            ) > 0) ==> exists|n: int|
            {
                &&& 0 <= n < runways.len()
                &&& flattened(runways, points, natural) == flattened(
                    seq![#[trigger] runways[n]],
                    seq![points[n]],
                    natural,
                )
                &&& forall|i: int|
                    0 <= i < runways.len() ==> level_weight(
                        (#[trigger] points[i]).0 as int,
                        points[i].1 as int,
                    ) <= level_weight(points[n].0 as int, points[n].1 as int)
            },
{
    lemma_winner(runways, points);
    let best = strongest(runways, points);
    if best.0 > 0 {
        let n = choose|n: int|
            0 <= n < runways.len() && best == (
                level_weight((#[trigger] points[n]).0 as int, points[n].1 as int),
                runways[n].elevation as int,
            );
        let one = seq![runways[n]];
        assert(one.drop_last() =~= Seq::empty());
        assert(strongest(one.drop_last(), seq![points[n]]) == (0int, 0int));
        assert(flattened(runways, points, natural) == flattened(
            seq![runways[n]],
            seq![points[n]],
            natural,
        ));
    } else {
        assert((best.1 - natural) * 0 == 0);
    }
}

proof fn lemma_winner(runways: Seq<RunwayInstance>, points: Seq<(i64, i64)>)
    requires
        points.len() >= runways.len(),
    ensures
        ({
            let best = strongest(runways, points);
            &&& best.0 >= 0
            &&& forall|i: int|
                0 <= i < runways.len() ==> level_weight(
                    (#[trigger] points[i]).0 as int,
                    points[i].1 as int,
                ) <= best.0
            &&& best.0 > 0 ==> exists|n: int|
                0 <= n < runways.len() && best == (
                    level_weight((#[trigger] points[n]).0 as int, points[n].1 as int),
                    runways[n].elevation as int,
                )
        }),
    decreases runways.len(),
{
    if runways.len() > 0 {
        let m = runways.len() - 1;
        lemma_winner(runways.drop_last(), points);
        lemma_weight(points[m].0 as int, points[m].1 as int);
        let before = strongest(runways.drop_last(), points);
        let best = strongest(runways, points);
        if best != before {
            assert(best == (
                level_weight(points[m].0 as int, points[m].1 as int),
                runways[m].elevation as int,
            ));
        } else if best.0 > 0 {
            let n = choose|n: int|
                0 <= n < runways.drop_last().len() && before == (
                    level_weight((#[trigger] points[n]).0 as int, points[n].1 as int),
                    runways.drop_last()[n].elevation as int,
                );
            assert(runways[n] == runways.drop_last()[n]);
            assert(0 <= n < runways.len() && best == (
                level_weight(points[n].0 as int, points[n].1 as int),
                runways[n].elevation as int,
            ));
        }
    }
}

/// The levelled rectangle reaches 342.5 m to either side of the centre line and 1320 m
/// toward either end, and from it the distance counts straight: along an axis past an
/// edge, by Pythagoras past a corner.
pub proof fn distance_counts_from_the_apron(lx: int, lz: int, dx: int, dz: int)
    requires
        dx >= 0,
        dz >= 0,
        dx == 0 ==> -342_500_000_000 <= lx <= 342_500_000_000,
        dx > 0 ==> lx == 342_500_000_000 + dx || lx == -342_500_000_000 - dx,
        dz == 0 ==> -1_320_000_000_000 <= lz <= 1_320_000_000_000,
        dz > 0 ==> lz == 1_320_000_000_000 + dz || lz == -1_320_000_000_000 - dz,
    ensures
        ({
            let d = apron_distance(lx, lz);
            0 <= d && d * d <= dx * dx + dz * dz < (d + 1) * (d + 1)
        }),
        dz == 0 ==> apron_distance(lx, lz) == dx,
        dx == 0 ==> apron_distance(lx, lz) == dz,
{
    let n = dx * dx + dz * dz;
    assert(n >= 0) by (nonlinear_arith)
        requires
            n == dx * dx + dz * dz,
    ;
    root_exists(n);
    assert(0 * 0 == 0);
    if dz == 0 {
        assert(dx * dx < (dx + 1) * (dx + 1)) by (nonlinear_arith)
            requires
                dx >= 0,
        ;
        crate::fixed::root_is_unique(apron_distance(lx, lz), dx, n);
    }
    if dx == 0 {
        assert(dz * dz < (dz + 1) * (dz + 1)) by (nonlinear_arith)
            requires
                dz >= 0,
        ;
        crate::fixed::root_is_unique(apron_distance(lx, lz), dz, n);
    }
}

/// A runway levels the ground fully up to the edge of its apron and not at all from 600
/// m beyond it; in between its weight never grows with the distance.
pub proof fn weight_falls_with_distance(near: (int, int), far: (int, int))
    requires
        apron_distance(near.0, near.1) <= apron_distance(far.0, far.1),
        0 <= apron_distance(near.0, near.1),
    ensures
        0 <= level_weight(far.0, far.1) <= level_weight(near.0, near.1) <= ONE,
        apron_distance(near.0, near.1) < 600 ==> level_weight(near.0, near.1) == ONE,
        apron_distance(far.0, far.1) >= 600_000_000_000 ==> level_weight(far.0, far.1) == 0,
{
    let t = clamped(apron_distance(near.0, near.1) / 600, 0, ONE as int);
    let u = clamped(apron_distance(far.0, far.1) / 600, 0, ONE as int);
    falloff_is_monotone(t, u);
    falloff_is_a_fraction(t);
    falloff_is_a_fraction(u);
    assert(falloff(0) == ONE) by {
        assert(0 * 0 * (3 * ONE - 2 * 0) == 0) by (nonlinear_arith);
    }
    let one = ONE as int;
    assert(one * one * (3 * one - 2 * one) == 1_000_000_000_000_000_000_000_000_000)
        by (nonlinear_arith)
        requires
            one == 1_000_000_000,
    ;
}

/// The ramp leaves the apron and meets the natural ground without a kink: near its ends
/// the weight changes by no more than three times the square of the distance, and its
/// two halves mirror each other.
pub proof fn ramp_is_smooth(t: int)
    requires
        0 <= t <= ONE,
    ensures
        (ONE - falloff(t)) * ONE <= 3 * (t * t),
        falloff(t) * ONE <= 3 * ((ONE - t) * (ONE - t)) + ONE,
        ONE <= falloff(t) + falloff(ONE - t) <= ONE + 1,
        (ONE - falloff(t)) * 1_000_000_000_000_000_000 <= 3_000_000_000 * (t * t) - 2 * (t * t * t)
            < (ONE - falloff(t) + 1) * 1_000_000_000_000_000_000,
{
    let s = ONE - t;
    let c = t * t * (3 * ONE - 2 * t);
    let e = s * s * (3 * ONE - 2 * s);
    let n = 1_000_000_000int;
    let nn = 1_000_000_000_000_000_000int;
    let nnn = 1_000_000_000_000_000_000_000_000_000int;
    assert(c + e == nnn && c == 3_000_000_000 * (t * t) - 2 * (t * t * t)) by (nonlinear_arith)
        requires
            s == 1_000_000_000 - t,
            c == t * t * (3 * 1_000_000_000 - 2 * t),
            e == s * s * (3 * 1_000_000_000 - 2 * s),
            nnn == 1_000_000_000_000_000_000_000_000_000,
    ;
    assert(c <= 3_000_000_000 * (t * t) && e <= 3_000_000_000 * (s * s)) by (nonlinear_arith)
        requires
            c == t * t * (3 * 1_000_000_000 - 2 * t),
            e == s * s * (3 * 1_000_000_000 - 2 * s),
            0 <= t,
            0 <= s,
    ;
}

/// A point that lies `along` down a runway's heading and `aside` of it has just these
/// coordinates in the runway's frame, whichever way the runway points.
pub proof fn frame_follows_the_heading(along: int, aside: int, sin: int, cos: int)
    requires
        sin * sin + cos * cos == ONE * ONE,
        -FAR <= along * ONE <= FAR,
        -FAR <= aside * ONE <= FAR,
    ensures
        frame_point(aside * cos + along * sin, along * cos - aside * sin, sin, cos) == (
            aside * ONE,
            along * ONE,
        ),
{
    let px = aside * cos + along * sin;
    let pz = along * cos - aside * sin;
    let nn = sin * sin + cos * cos;
    assert(px * cos - pz * sin == aside * nn && px * sin + pz * cos == along * nn)
        by (nonlinear_arith)
        requires
            px == aside * cos + along * sin,
            pz == along * cos - aside * sin,
            nn == sin * sin + cos * cos,
    ;
    let n = ONE as int;
    assert(aside * nn == (aside * n) * n && along * nn == (along * n) * n) by (nonlinear_arith)
        requires
            nn == n * n,
    ;
}

/// The asphalt is 45 m wide and 2000 m long around the centre.
pub proof fn asphalt_is_the_strip(lx: int, lz: int)
    ensures
        paved(lx, lz) <==> -22_500_000_000 <= lx <= 22_500_000_000 && -1_000_000_000_000 <= lz
            <= 1_000_000_000_000,
{
}

/// The painted number is the heading to the nearest ten degrees, north as 36.
pub proof fn numbers_name_the_heading(heading: int)
    requires
        0 <= heading < 2 * HALF_TURN,
    ensures
        ({
            let n = painted_number(heading);
            let off = 18 * heading - n * HALF_TURN;
            &&& 1 <= n <= 36
            &&& n < 36 ==> -HALF_TURN <= 2 * off < HALF_TURN
            &&& n == 36 ==> 36 * heading < HALF_TURN || -HALF_TURN <= 2 * off
        }),
{
    let n = 36 * heading + HALF_TURN;
    let d = 2 * HALF_TURN as int;
    vstd::arithmetic::div_mod::lemma_fundamental_div_mod(n, d);
    let q = n / d;
    let r = n % d;
    assert(d == 6_283_185_308);
    assert(0 <= q <= 36);
    assert(heading_tens(heading) == q % 36);
}

/// Over several strips the ground is the terrain's, or the asphalt of a strip that the
/// point is on; 0.3 m above that strip's elevation.
pub proof fn ground_is_terrain_or_asphalt(
    runways: Seq<RunwayInstance>,
    points: Seq<(i64, i64)>,
    ground: int,
)
    requires
        points.len() >= runways.len(),
    ensures
        raised(runways, points, ground) == ground || exists|i: int|
            {
                &&& 0 <= i < runways.len()
                &&& paved((#[trigger] points[i]).0 as int, points[i].1 as int)
                &&& raised(runways, points, ground) == runways[i].elevation + 300_000_000
            },
    decreases runways.len(),
{
    if runways.len() > 0 {
        let m = runways.len() - 1;
        ground_is_terrain_or_asphalt(runways.drop_last(), points, ground);
        let before = raised(runways.drop_last(), points, ground);
        if raised(runways, points, ground) != before {
            assert(paved(points[m].0 as int, points[m].1 as int));
        } else if before != ground {
            let i = choose|i: int|
                {
                    &&& 0 <= i < runways.drop_last().len()
                    &&& paved((#[trigger] points[i]).0 as int, points[i].1 as int)
                    &&& before == runways.drop_last()[i].elevation + 300_000_000
                };
            assert(paved(points[i].0 as int, points[i].1 as int));
            assert(runways[i] == runways.drop_last()[i]);
        }
    }
}

/// A cell yields a strip exactly where its ground is at least three metres up, or where
/// the aircraft spawns; the strip lies at its site, level with the ground there.
pub proof fn dry_cells_have_a_strip(site: RunwaySite, elevation: i64)
    ensures
        placed_at(site, elevation) is Some <==> elevation >= 3_000_000_000 || site.cell == (
            0i32,
            0i32,
        ),
        placed_at(site, elevation) matches Some(r) ==> r.x == site.x && r.z == site.z && r.heading
            == site.heading && r.cell == site.cell && r.elevation == elevation,
{
}

/// Every dry site of a region has its strip, and every strip of the region is that of
/// one of its sites.
pub proof fn regions_hold_every_dry_strip(sites: Seq<RunwaySite>, heights: Seq<i64>)
    requires
        heights.len() >= sites.len(),
    ensures
        forall|i: int|
            0 <= i < sites.len() ==> (placed_at(#[trigger] sites[i], heights[i]) matches Some(r)
                ==> placed(sites, heights).contains(r)),
        forall|r: RunwayInstance| #[trigger]
            placed(sites, heights).contains(r) ==> exists|i: int|
                0 <= i < sites.len() && placed_at(#[trigger] sites[i], heights[i]) == Some(r),
        placed(sites, heights).len() <= sites.len(),
    decreases sites.len(),
{
    if sites.len() > 0 {
        let m = sites.len() - 1;
        let head = sites.drop_last();
        regions_hold_every_dry_strip(head, heights);
        let before = placed(head, heights);
        let all = placed(sites, heights);
        assert forall|r: RunwayInstance| before.contains(r) implies all.contains(r) by {
            let k = choose|k: int| 0 <= k < before.len() && before[k] == r;
            assert(all[k] == r);
        }
        if let Some(r) = placed_at(sites[m], heights[m]) {
            assert(all[all.len() - 1] == r);
        }
        assert forall|i: int| 0 <= i < sites.len() implies (placed_at(
            #[trigger] sites[i],
            heights[i],
        ) matches Some(r) ==> all.contains(r)) by {
            if i < m {
                assert(head[i] == sites[i]);
            }
        }
        assert forall|r: RunwayInstance| #[trigger] all.contains(r) implies exists|i: int|
            0 <= i < sites.len() && placed_at(#[trigger] sites[i], heights[i]) == Some(r) by {
            if before.contains(r) {
                let i = choose|i: int|
                    0 <= i < head.len() && placed_at(#[trigger] head[i], heights[i]) == Some(r);
                assert(sites[i] == head[i]);
            } else {
                let k = choose|k: int| 0 <= k < all.len() && all[k] == r;
                if k < before.len() {
                    assert(before[k] == r);
                }
                assert(placed_at(sites[m], heights[m]) == Some(r));
            }
        }
    }
}

/// Streaming misses no strip: every dry site in range of the camera gets its strip.
pub proof fn strips_in_range_are_spawned(
    sites: Seq<RunwaySite>,
    heights: Seq<i64>,
    camera: (i64, i64),
    render_distance: int,
)
    requires
        heights.len() >= sites.len(),
    ensures
        forall|i: int|
            0 <= i < sites.len() ==> (placed_at(#[trigger] sites[i], heights[i]) matches Some(r)
                ==> (kept(r.x as int, r.z as int, camera, render_distance) ==> in_range(
                sites,
                heights,
                camera,
                render_distance,
            ).contains(r))),
    decreases sites.len(),
{
    if sites.len() > 0 {
        let m = sites.len() - 1;
        let head = sites.drop_last();
        strips_in_range_are_spawned(head, heights, camera, render_distance);
        let before = in_range(head, heights, camera, render_distance);
        let all = in_range(sites, heights, camera, render_distance);
        assert forall|r: RunwayInstance| before.contains(r) implies all.contains(r) by {
            let k = choose|k: int| 0 <= k < before.len() && before[k] == r;
            assert(all[k] == r);
        }
        if let Some(r) = placed_at(sites[m], heights[m]) {
            if kept(r.x as int, r.z as int, camera, render_distance) {
                assert(all[all.len() - 1] == r);
            }
        }
        assert forall|i: int| 0 <= i < sites.len() implies (placed_at(
            #[trigger] sites[i],
            heights[i],
        ) matches Some(r) ==> (kept(r.x as int, r.z as int, camera, render_distance)
            ==> all.contains(r))) by {
            if i < m {
                assert(head[i] == sites[i]);
            }
        }
    }
}

/// Streaming drops exactly the strips beyond the drop range, and forgets their cells.
pub proof fn strips_beyond_range_are_dropped(
    cells: Set<(i32, i32)>,
    slabs: Seq<RunwaySlab>,
    camera: (i64, i64),
    render_distance: int,
)
    ensures
        forall|i: int|
            0 <= i < slabs.len() && dropped(
                (#[trigger] slabs[i]).x as int,
                slabs[i].z as int,
                camera,
                render_distance,
            ) ==> {
                &&& beyond_range(slabs, camera, render_distance).contains(slabs[i].entity)
                &&& !without_slabs(cells, slabs, camera, render_distance).contains(slabs[i].cell)
            },
        forall|c: (i32, i32)|
            cells.contains(c) && !(#[trigger] without_slabs(
                cells,
                slabs,
                camera,
                render_distance,
            ).contains(c)) ==> exists|i: int|
                0 <= i < slabs.len() && (#[trigger] slabs[i]).cell == c && dropped(
                    slabs[i].x as int,
                    slabs[i].z as int,
                    camera,
                    render_distance,
                ),
        forall|c: (i32, i32)|
            #[trigger] without_slabs(cells, slabs, camera, render_distance).contains(c)
                ==> cells.contains(c),
        beyond_range(slabs, camera, render_distance).len() <= slabs.len(),
    decreases slabs.len(),
{
    if slabs.len() > 0 {
        let m = slabs.len() - 1;
        let head = slabs.drop_last();
        strips_beyond_range_are_dropped(cells, head, camera, render_distance);
        let before = beyond_range(head, camera, render_distance);
        let all = beyond_range(slabs, camera, render_distance);
        let left = without_slabs(cells, head, camera, render_distance);
        let after = without_slabs(cells, slabs, camera, render_distance);
        if dropped(slabs[m].x as int, slabs[m].z as int, camera, render_distance) {
            assert(all[all.len() - 1] == slabs[m].entity);
        }
        assert forall|i: int|
            0 <= i < slabs.len() && dropped(
                (#[trigger] slabs[i]).x as int,
                slabs[i].z as int,
                camera,
                render_distance,
            ) implies all.contains(slabs[i].entity) && !after.contains(slabs[i].cell) by {
            if i < m {
                assert(head[i] == slabs[i]);
                let k = choose|k: int| 0 <= k < before.len() && before[k] == slabs[i].entity;
                assert(all[k] == slabs[i].entity);
            }
        }
        assert forall|c: (i32, i32)|
            cells.contains(c) && !(#[trigger] after.contains(c)) implies exists|i: int|
            0 <= i < slabs.len() && (#[trigger] slabs[i]).cell == c && dropped(
                slabs[i].x as int,
                slabs[i].z as int,
                camera,
                render_distance,
            ) by {
            if left.contains(c) {
                assert(slabs[m].cell == c);
            } else {
                let i = choose|i: int|
                    0 <= i < head.len() && (#[trigger] head[i]).cell == c && dropped(
                        head[i].x as int,
                        head[i].z as int,
                        camera,
                        render_distance,
                    );
                assert(slabs[i] == head[i]);
            }
        }
    }
}

/// The cells of spawned strips are remembered, and no others are added.
pub proof fn spawned_strips_are_remembered(cells: Set<(i32, i32)>, runways: Seq<RunwayInstance>)
    ensures
        forall|c: (i32, i32)| #[trigger]
            with_runways(cells, runways).contains(c) <==> cells.contains(c) || exists|i: int|
                0 <= i < runways.len() && (#[trigger] runways[i]).cell == c,
    decreases runways.len(),
{
    if runways.len() > 0 {
        let head = runways.drop_last();
        let m = runways.len() - 1;
        spawned_strips_are_remembered(cells, head);
        assert forall|c: (i32, i32)| #[trigger]
            with_runways(cells, runways).contains(c) <==> cells.contains(c) || exists|i: int|
                0 <= i < runways.len() && (#[trigger] runways[i]).cell == c by {
            let before = with_runways(cells, head);
            assert(with_runways(cells, runways) == before.insert(runways[m].cell));
            if before.contains(c) && !cells.contains(c) {
                let i = choose|i: int| 0 <= i < head.len() && (#[trigger] head[i]).cell == c;
                assert(runways[i].cell == c);
            }
            if exists|i: int| 0 <= i < runways.len() && (#[trigger] runways[i]).cell == c {
                let i = choose|i: int| 0 <= i < runways.len() && (#[trigger] runways[i]).cell == c;
                if i < m {
                    assert(head[i].cell == c);
                    assert(before.contains(c));
                }
            }
            if c == runways[m].cell {
                assert(runways[m].cell == c);
            }
        }
    }
}

/// Strips are spawned up to 500 m for each chunk of the view radius, and dropped beyond
/// 575 m.
pub proof fn ranges_follow_the_view(d: int, render_distance: int)
    requires
        0 <= d,
        0 <= render_distance,
    ensures
        kept(d, 0, (0i64, 0i64), render_distance) <==> d <= render_distance * 500_000_000_000,
        dropped(0, d, (0i64, 0i64), render_distance) <==> d > render_distance * 575_000_000_000,
{
    let k = render_distance * 500_000_000_000;
    let x = render_distance * 575_000_000_000;
    assert(0 * 0 == 0);
    assert(d * d <= k * k <==> d <= k) by (nonlinear_arith)
        requires
            0 <= d,
            0 <= k,
    ;
    assert(d * d > x * x <==> d > x) by (nonlinear_arith)
        requires
            0 <= d,
            0 <= x,
    ;
}

/// A place belongs to the grid point at most half a spacing of 5 km away.
pub proof fn places_belong_to_the_nearest_cell(v: int)
    ensures
        -2_500_000_000_000 <= v - nearest_cell(v) * 5_000_000_000_000 <= 2_500_000_000_000,
{
}

/// The cells looked at reach as far as strips are dropped, rounded up to whole cells, and
/// one cell further.
pub proof fn cells_reach_the_drop_range(
    cell: (i32, i32),
    camera: (i64, i64),
    render_distance: int,
)
    ensures
        ({
            let dx = cell.0 - nearest_cell(camera.0 as int);
            let dz = cell.1 - nearest_cell(camera.1 as int);
            let far = render_distance * 575_000_000_000;
            near_camera(cell, camera, render_distance) <==> {
                &&& (dx - 2) * 5_000_000_000_000 < far && (-dx - 2) * 5_000_000_000_000 < far
                &&& (dz - 2) * 5_000_000_000_000 < far && (-dz - 2) * 5_000_000_000_000 < far
            }
        }),
{
    let far = render_distance * 575_000_000_000;
    let up = -((-far) / 5_000_000_000_000);
    assert((up - 1) * 5_000_000_000_000 < far <= up * 5_000_000_000_000);
}

/// Away from the origin a strip wanders from the middle of its cell and turns by chance: in
/// proportion to three draws of 24 bits, by up to 2.125 km either way along each axis
/// and over a half turn.
pub proof fn strips_wander_with_their_draws(seed: u32, cell: (i32, i32))
    requires
        cell_in_world(cell),
        cell != (0i32, 0i32),
    ensures
        ({
            let site = site_of(seed, cell);
            let h = hash_of_cell(seed, cell.0, cell.1);
            let unit = 0x100_0000int;
            let x = site.x - cell.0 * 5_000_000_000_000;
            let z = site.z - cell.1 * 5_000_000_000_000;
            let (a, b) = (avalanche(h) >> 8, avalanche(h ^ 0x68bc_21eb) >> 8);
            let c = avalanche(h ^ 0x2545_f491) >> 8;
            &&& x * unit <= (2 * a - unit) * 2_125_000_000_000 < (x + 1) * unit
            &&& z * unit <= (2 * b - unit) * 2_125_000_000_000 < (z + 1) * unit
            &&& site.heading * unit <= c * 3_141_592_654 < (site.heading + 1) * unit
            &&& site.cell == cell
        }),
{
    let h = hash_of_cell(seed, cell.0, cell.1);
    lemma_draw(avalanche(h));
    lemma_draw(avalanche(h ^ 0x68bc_21eb));
    lemma_draw(avalanche(h ^ 0x2545_f491));
}

proof fn lemma_draw(h: u32)
    ensures
        h >> 8 < 0x100_0000,
{
    assert(h >> 8 < 0x100_0000) by (bit_vector);
}

/// An ident is a K and three letters that spell its hash to the base of 26, least letter
/// first.
pub proof fn idents_spell_their_hash(h: u32)
    ensures
        ({
            let ident = ident_of(h);
            let (a, b, c) = (ident[1] as int - 65, ident[2] as int - 65, ident[3] as int - 65);
            &&& ident.len() == 4 && ident[0] == 'K'
            &&& 0 <= a < 26 && 0 <= b < 26 && 0 <= c < 26
            &&& a + 26 * b + 676 * c == h % 17_576
        }),
{
}

}
