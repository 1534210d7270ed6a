//! How far the runways level the land, that no runway which levels a point is
//! overlooked, and what the ground is where none does.

use super::runway::{
    apron_distance, around_box, cell_in_world, excess, falloff,
    falloff_is_a_fraction, far_root, flattened, frame_point, level_weight, lists_cells,
    nearest_cell, paved, placed, placed_at, raised, runways_stay_in_their_cell, site_of, sites_of,
    strongest, RunwayInstance, RunwaySite, FAR, RUNWAY_BLEND_MARGIN, RUNWAY_SPACING,
    RUNWAY_SURFACE_LIFT,
};
use super::streaming::scanned_before;
use crate::fixed::{clamped, root, root_exists, root_is_unique, scaled, ONE};
use vstd::prelude::*;

verus! {

/// How far from its centre a runway levels the land at most, along either axis.
pub const RUNWAY_REACH: i64 = 2_200_000_000_000;

/// The two are the sine and cosine of some heading, but for rounding.
pub open spec fn is_heading(sin: int, cos: int) -> bool {
    &&& -ONE <= sin <= ONE
    &&& -ONE <= cos <= ONE
    &&& 990_000_000_000_000_000 <= sin * sin + cos * cos
}

proof fn lemma_weight_fades(lx: int, lz: int)
    requires
        -FAR <= lx <= FAR,
        -FAR <= lz <= FAR,
        level_weight(lx, lz) > 0,
    ensures
        -942_500_000_000 < lx < 942_500_000_000,
        -1_920_000_000_000 < lz < 1_920_000_000_000,
{
    let dx = excess(lx, 342_500_000_000);
    let dz = excess(lz, 1_320_000_000_000);
    if dx >= RUNWAY_BLEND_MARGIN || dz >= RUNWAY_BLEND_MARGIN {
        far_root(dx, dz, RUNWAY_BLEND_MARGIN as int);
        let t = ONE as int;
        assert(t * t * (3 * t - 2 * t) == 1_000_000_000_000_000_000_000_000_000) by (nonlinear_arith)
            requires
                t == 1_000_000_000,
        ;
        assert(falloff(ONE as int) == 0);
    }
}

/// A turn keeps lengths: the squares of the turned parts add up to those of the
/// parts times the square of the turn's own length.
proof fn lemma_turn_keeps_length(px: int, pz: int, sin: int, cos: int)
    ensures
        ({
            let a = px * cos - pz * sin;
            let b = px * sin + pz * cos;
            a * a + b * b == (px * px + pz * pz) * (sin * sin + cos * cos)
        }),
{
    let (p, q, r, t) = (px * cos, pz * sin, px * sin, pz * cos);
    assert((p - q) * (p - q) == p * p - 2 * (p * q) + q * q) by (nonlinear_arith);
    assert((r + t) * (r + t) == r * r + 2 * (r * t) + t * t) by (nonlinear_arith);
    assert(p * q == r * t) by (nonlinear_arith)
        requires
            p == px * cos,
            q == pz * sin,
            r == px * sin,
            t == pz * cos,
    ;
    let (xx, zz, ss, cc) = (px * px, pz * pz, sin * sin, cos * cos);
    assert((px * cos) * (px * cos) == (px * px) * (cos * cos)) by (nonlinear_arith);
    assert((pz * sin) * (pz * sin) == (pz * pz) * (sin * sin)) by (nonlinear_arith);
    assert((px * sin) * (px * sin) == (px * px) * (sin * sin)) by (nonlinear_arith);
    assert((pz * cos) * (pz * cos) == (pz * pz) * (cos * cos)) by (nonlinear_arith);
    assert((xx + zz) * (ss + cc) == xx * ss + xx * cc + zz * ss + zz * cc) by (nonlinear_arith);
}

/// A runway levels no point that is further from its centre than its reach, along
/// either axis of the world, whatever its heading.
pub proof fn runways_reach_no_further(px: int, pz: int, sin: int, cos: int)
    requires
        is_heading(sin, cos),
        ({
            let p = frame_point(px, pz, sin, cos);
            level_weight(p.0, p.1) > 0
        }),
    ensures
        -RUNWAY_REACH <= px <= RUNWAY_REACH,
        -RUNWAY_REACH <= pz <= RUNWAY_REACH,
{
    let p = frame_point(px, pz, sin, cos);
    lemma_weight_fades(p.0, p.1);
    let a = px * cos - pz * sin;
    let b = px * sin + pz * cos;
    assert(-943_000_000_000_000_000_000 <= a <= 943_000_000_000_000_000_000);
    assert(-1_921_000_000_000_000_000_000 <= b <= 1_921_000_000_000_000_000_000);
    lemma_turn_keeps_length(px, pz, sin, cos);
    let n = px * px + pz * pz;
    let m = sin * sin + cos * cos;
    assert(a * a <= 943_000_000_000_000_000_000 * 943_000_000_000_000_000_000) by (nonlinear_arith)
        requires
            -943_000_000_000_000_000_000 <= a <= 943_000_000_000_000_000_000,
    ;
    assert(b * b <= 1_921_000_000_000_000_000_000 * 1_921_000_000_000_000_000_000)
        by (nonlinear_arith)
        requires
            -1_921_000_000_000_000_000_000 <= b <= 1_921_000_000_000_000_000_000,
    ;
    assert(0 <= px * px && 0 <= pz * pz) by (nonlinear_arith);
    assert(n < 4_640_000_000_000_000_000_000_000) by (nonlinear_arith)
        requires
            n * m <= 4_580_000_000_000_000_000_000_000_000_000_000_000_000_000,
            990_000_000_000_000_000 <= m,
            0 <= n,
    ;
    assert(-2_200_000_000_000 <= px <= 2_200_000_000_000) by (nonlinear_arith)
        requires
            px * px < 4_640_000_000_000_000_000_000_000,
    ;
    assert(-2_200_000_000_000 <= pz <= 2_200_000_000_000) by (nonlinear_arith)
        requires
            pz * pz < 4_640_000_000_000_000_000_000_000,
    ;
}

/// A point within a box and within reach of a cell's runway: the cell is around the
/// box.
proof fn lemma_reach_is_padded(site: int, cell: int, v: int, low: int, high: int)
    requires
        cell * RUNWAY_SPACING - 2_500_000_000_000 < site < cell * RUNWAY_SPACING
            + 2_500_000_000_000,
        -RUNWAY_REACH <= v - site <= RUNWAY_REACH,
        low <= v <= high,
    ensures
        nearest_cell(low) - 1 <= cell <= nearest_cell(high) + 1,
{
    let step = 5_000_000_000_000int;
    assert(cell * RUNWAY_SPACING == 5_000_000_000_000 * cell) by (nonlinear_arith)
        requires
            RUNWAY_SPACING == 5_000_000_000_000,
    ;
}

/// Every runway that levels a point of a box is among the sites to look at, and so,
/// unless its ground is water, among the region's runways.
pub proof fn no_runway_is_missed(
    seed: u32,
    low: (int, int),
    high: (int, int),
    cells: Seq<(i32, i32)>,
    sites: Seq<RunwaySite>,
    heights: Seq<i64>,
    cell: (i32, i32),
    point: (int, int),
    sin: int,
    cos: int,
) -> (i: int)
    requires
        sites_of(sites, seed, cells),
        lists_cells(cells, |c: (i32, i32)| around_box(c, low.0, low.1, high.0, high.1)),
        heights.len() == sites.len(),
        low.0 <= point.0 <= high.0,
        low.1 <= point.1 <= high.1,
        cell_in_world(cell),
        is_heading(sin, cos),
        ({
            let site = site_of(seed, cell);
            let p = frame_point(point.0 - site.x, point.1 - site.z, sin, cos);
            level_weight(p.0, p.1) > 0
        }),
    ensures
        0 <= i < sites.len(),
        sites[i] == site_of(seed, cell),
        placed_at(sites[i], heights[i]) matches Some(r) ==> placed(sites, heights).contains(r),
{
    let site = site_of(seed, cell);
    let around = |c: (i32, i32)| around_box(c, low.0, low.1, high.0, high.1);
    runways_reach_no_further(point.0 - site.x, point.1 - site.z, sin, cos);
    runways_stay_in_their_cell(seed, cell);
    lemma_reach_is_padded(site.x as int, cell.0 as int, point.0, low.0, high.0);
    lemma_reach_is_padded(site.z as int, cell.1 as int, point.1, low.1, high.1);
    assert(around(cell));
    assert(cells.contains(cell));
    let i = choose|i: int| 0 <= i < cells.len() && cells[i] == cell;
    lemma_placed_contains(sites, heights, i);
    i
}

proof fn lemma_placed_contains(sites: Seq<RunwaySite>, heights: Seq<i64>, i: int)
    requires
        heights.len() >= sites.len(),
        0 <= i < sites.len(),
    ensures
        placed_at(sites[i], heights[i]) matches Some(r) ==> placed(sites, heights).contains(r),
    decreases sites.len(),
{
    let before = placed(sites.drop_last(), heights);
    let last = placed_at(sites.last(), heights[sites.len() - 1]);
    if i < sites.len() - 1 {
        lemma_placed_contains(sites.drop_last(), heights, i);
        if let Some(r) = placed_at(sites[i], heights[i]) {
            let k = choose|k: int| 0 <= k < before.len() && before[k] == r;
            assert(placed(sites, heights)[k] == r);
        }
    } else if let Some(r) = last {
        assert(placed(sites, heights)[before.len() as int] == r);
    }
}

proof fn lemma_placed_in_order(sites: Seq<RunwaySite>, heights: Seq<i64>)
    requires
        forall|i: int, j: int|
            0 <= i < j < sites.len() ==> scanned_before(
                (#[trigger] sites[i]).cell,
                (#[trigger] sites[j]).cell,
            ),
    ensures
        forall|i: int|
            0 <= i < placed(sites, heights).len() ==> exists|k: int|
                0 <= k < sites.len() && (#[trigger] placed(sites, heights)[i]).cell == (
                #[trigger] sites[k]).cell,
        forall|i: int, j: int|
            0 <= i < j < placed(sites, heights).len() ==> scanned_before(
                (#[trigger] placed(sites, heights)[i]).cell,
                (#[trigger] placed(sites, heights)[j]).cell,
            ),
    decreases sites.len(),
{
    if sites.len() > 0 {
        let rest = sites.drop_last();
        assert forall|i: int, j: int| 0 <= i < j < rest.len() implies scanned_before(
            (#[trigger] rest[i]).cell,
            (#[trigger] rest[j]).cell,
        ) by {
            assert(rest[i] == sites[i] && rest[j] == sites[j]);
        }
        lemma_placed_in_order(rest, heights);
        let before = placed(rest, heights);
        let now = placed(sites, heights);
        assert forall|i: int| 0 <= i < now.len() implies exists|k: int|
            0 <= k < sites.len() && (#[trigger] now[i]).cell == (#[trigger] sites[k]).cell by {
            if i < before.len() {
                let k = choose|k: int|
                    0 <= k < rest.len() && before[i].cell == (#[trigger] rest[k]).cell;
                assert(sites[k] == rest[k]);
            } else {
                assert(sites[sites.len() - 1] == sites.last());
            }
        }
        assert forall|i: int, j: int| 0 <= i < j < now.len() implies scanned_before(
            (#[trigger] now[i]).cell,
            (#[trigger] now[j]).cell,
        ) by {
            if j < before.len() {
                assert(now[i] == before[i] && now[j] == before[j]);
            } else {
                assert(now[i] == before[i]);
                let k = choose|k: int|
                    0 <= k < rest.len() && before[i].cell == (#[trigger] rest[k]).cell;
                assert(sites[k] == rest[k]);
                assert(sites[sites.len() - 1] == sites.last());
            }
        }
    }
}

/// No two runways of a region are of the same cell.
pub proof fn region_runways_are_distinct(
    seed: u32,
    cells: Seq<(i32, i32)>,
    wanted: spec_fn((i32, i32)) -> bool,
    sites: Seq<RunwaySite>,
    heights: Seq<i64>,
    i: int,
    j: int,
)
    requires
        sites_of(sites, seed, cells),
        lists_cells(cells, wanted),
        0 <= i < j < placed(sites, heights).len(),
    ensures
        placed(sites, heights)[i].cell != placed(sites, heights)[j].cell,
{
    assert forall|i: int, j: int| 0 <= i < j < sites.len() implies scanned_before(
        (#[trigger] sites[i]).cell,
        (#[trigger] sites[j]).cell,
    ) by {
        assert(sites[i].cell == cells[i] && sites[j].cell == cells[j]);
    }
    lemma_placed_in_order(sites, heights);
}

proof fn lemma_paved_is_level(lx: int, lz: int)
    requires
        paved(lx, lz),
    ensures
        level_weight(lx, lz) == ONE,
{
    assert(apron_distance(lx, lz) == 0) by {
        assert(crate::fixed::is_root(0, 0));
        root_exists(0);
        root_is_unique(root(0), 0, 0);
    }
    assert(falloff(0) == ONE);
}

proof fn lemma_no_weight(runways: Seq<RunwayInstance>, points: Seq<(i64, i64)>, ground: int)
    requires
        points.len() >= runways.len(),
        forall|i: int|
            0 <= i < runways.len() ==> level_weight(
                (#[trigger] points[i]).0 as int,
                points[i].1 as int,
            ) == 0,
    ensures
        strongest(runways, points) == (0int, 0int),
        raised(runways, points, ground) == ground,
    decreases runways.len(),
{
    if runways.len() > 0 {
        lemma_no_weight(runways.drop_last(), points, ground);
        let p = points[runways.len() - 1];
        if paved(p.0 as int, p.1 as int) {
            lemma_paved_is_level(p.0 as int, p.1 as int);
        }
    }
}

/// Wherever no runway has any weight the ground is the natural land, so that the mesh
/// and the landing gear agree.
pub proof fn open_country_is_natural(
    runways: Seq<RunwayInstance>,
    points: Seq<(i64, i64)>,
    natural: int,
)
    requires
        points.len() >= runways.len(),
        forall|i: int|
            0 <= i < runways.len() ==> level_weight(
                (#[trigger] points[i]).0 as int,
                points[i].1 as int,
            ) == 0,
    ensures
        flattened(runways, points, natural) == natural,
        raised(runways, points, flattened(runways, points, natural)) == natural,
{
    lemma_no_weight(runways, points, natural);
    assert(scaled(0 - natural, 0) == 0);
}

/// At the centre of a strip that sits level with the natural land there, and where no
/// other runway has any weight, the wheels stand on the asphalt: the natural land and
/// the pavement's 0.3 m. So it is at the origin, where the aircraft starts.
pub proof fn strip_centre_is_paved(
    runways: Seq<RunwayInstance>,
    points: Seq<(i64, i64)>,
    natural: int,
    n: int,
)
    requires
        points.len() >= runways.len(),
        0 <= n < runways.len(),
        runways[n].elevation == natural,
        points[n] == (0i64, 0i64),
        forall|i: int|
            0 <= i < runways.len() && i != n ==> level_weight(
                (#[trigger] points[i]).0 as int,
                points[i].1 as int,
            ) == 0,
    ensures
        flattened(runways, points, natural) == natural,
        raised(runways, points, flattened(runways, points, natural)) == natural
            + RUNWAY_SURFACE_LIFT,
{
    lemma_paved_is_level(0, 0);
    lemma_one_weight(runways, points, natural, n);
    assert(scaled(0, ONE as int) == 0);
}

proof fn lemma_one_weight(
    runways: Seq<RunwayInstance>,
    points: Seq<(i64, i64)>,
    natural: int,
    n: int,
)
    requires
        points.len() >= runways.len(),
        0 <= n < runways.len(),
        runways[n].elevation == natural,
        points[n] == (0i64, 0i64),
        level_weight(0, 0) == ONE,
        forall|i: int|
            0 <= i < runways.len() && i != n ==> level_weight(
                (#[trigger] points[i]).0 as int,
                points[i].1 as int,
            ) == 0,
    ensures
        strongest(runways, points) == (ONE as int, natural),
        raised(runways, points, natural) == natural + RUNWAY_SURFACE_LIFT,
    decreases runways.len(),
{
    let m = runways.len() - 1;
    if n == m {
        lemma_no_weight(runways.drop_last(), points, natural);
    } else {
        lemma_one_weight(runways.drop_last(), points, natural, n);
        if paved(points[m].0 as int, points[m].1 as int) {
            lemma_paved_is_level(points[m].0 as int, points[m].1 as int);
        }
    }
}

/// No other cell's runway levels the origin, where the aircraft starts.
pub proof fn only_the_spawn_strip_levels_the_origin(
    seed: u32,
    cell: (i32, i32),
    sin: int,
    cos: int,
)
    requires
        cell_in_world(cell),
        cell != (0i32, 0i32),
        is_heading(sin, cos),
    ensures
        ({
            let site = site_of(seed, cell);
            let p = frame_point(0 - site.x, 0 - site.z, sin, cos);
            level_weight(p.0, p.1) == 0
        }),
{
    let site = site_of(seed, cell);
    let p = frame_point(0 - site.x, 0 - site.z, sin, cos);
    falloff_is_a_fraction(clamped(apron_distance(p.0, p.1) / 600, 0, ONE as int));
    super::runway::wander_keeps_clear(seed, cell);
    if level_weight(p.0, p.1) > 0 {
        runways_reach_no_further(0 - site.x, 0 - site.z, sin, cos);
    }
}

}
