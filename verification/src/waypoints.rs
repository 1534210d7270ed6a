//! In-world waypoint labels: one stalk per airport, hidden when near and fading
//! with distance. Lengths are in nanometres, pixels with nine decimals.

use crate::fixed::{
    clamp, clamped, floor_div, root, root_is_at_least, scaled, sqrt_floor, ONE,
};
use crate::terrain::hash::hash_of_cell;
use crate::terrain::runway::{coord_in_world, ident_of, runway_ident, MAX_COORD};
use crate::text::{push_rounded, rounded_text};
use crate::vector::{vec3, Vec3};
use vstd::prelude::*;
use vstd::string::StringExecFns;

verus! {

/// A loaded runway: its cell, position and elevation.
#[derive(Clone, Copy, Debug, PartialEq, Eq)]
pub struct SlabSite {
    pub cell: (i32, i32),
    pub x: i64,
    pub z: i64,
    pub elevation: i64,
}

/// Height of the stalk's base and tip above the runway.
pub const STALK_BASE_OFFSET: i64 = 2_000_000_000;

pub const STALK_TIP_OFFSET: i64 = 1_000_000_000_000;

/// Sum over the slabs of a cell: count, x, z and elevation.
pub open spec fn cell_sum(slabs: Seq<SlabSite>, cell: (i32, i32)) -> (int, int, int, int)
    decreases slabs.len(),
{
    if slabs.len() == 0 {
        (0, 0, 0, 0)
    } else {
        let s = cell_sum(slabs.drop_last(), cell);
        let last = slabs.last();
        if last.cell == cell {
            (s.0 + 1, s.1 + last.x, s.2 + last.z, s.3 + last.elevation)
        } else {
            s
        }
    }
}

/// The stalk of a cell stands at the average of the cell's slabs.
pub open spec fn is_average(site: SlabSite, slabs: Seq<SlabSite>) -> bool {
    let s = cell_sum(slabs, site.cell);
    &&& s.0 > 0
    &&& site.x == s.1 / s.0
    &&& site.z == s.2 / s.0
    &&& site.elevation == s.3 / s.0
}

/// A partial sum for a cell.
#[derive(Clone, Copy)]
struct Sum {
    cell: (i32, i32),
    count: i128,
    x: i128,
    z: i128,
    elevation: i128,
}

spec fn sums_hold(sums: Seq<Sum>, slabs: Seq<SlabSite>) -> bool {
    &&& forall|i: int|
        0 <= i < sums.len() ==> {
            let s = #[trigger] sums[i];
            let t = cell_sum(slabs, s.cell);
            &&& t == (s.count as int, s.x as int, s.z as int, s.elevation as int)
            &&& s.count > 0
        }
    &&& forall|i: int, j: int|
        0 <= i < j < sums.len() ==> (#[trigger] sums[i]).cell != (#[trigger] sums[j]).cell
    &&& forall|k: int| 0 <= k < slabs.len() ==> summed(sums, (#[trigger] slabs[k]).cell)
}

spec fn summed(sums: Seq<Sum>, cell: (i32, i32)) -> bool {
    exists|i: int| 0 <= i < sums.len() && (#[trigger] sums[i]).cell == cell
}

/// Some site stands for the cell.
pub open spec fn has_site(sites: Seq<SlabSite>, cell: (i32, i32)) -> bool {
    exists|i: int| 0 <= i < sites.len() && (#[trigger] sites[i]).cell == cell
}

proof fn lemma_sum_bound(slabs: Seq<SlabSite>, cell: (i32, i32))
    ensures
        ({
            let s = cell_sum(slabs, cell);
            let n = slabs.len() as int;
            &&& 0 <= s.0 <= n
            &&& s.0 * i64::MIN <= s.1 <= s.0 * i64::MAX
            &&& s.0 * i64::MIN <= s.2 <= s.0 * i64::MAX
            &&& s.0 * i64::MIN <= s.3 <= s.0 * i64::MAX
        }),
    decreases slabs.len(),
{
    if slabs.len() > 0 {
        lemma_sum_bound(slabs.drop_last(), cell);
    }
}

proof fn lemma_absent_cell(slabs: Seq<SlabSite>, cell: (i32, i32))
    requires
        forall|k: int| 0 <= k < slabs.len() ==> (#[trigger] slabs[k]).cell != cell,
    ensures
        cell_sum(slabs, cell) == (0int, 0int, 0int, 0int),
    decreases slabs.len(),
{
    if slabs.len() > 0 {
        lemma_absent_cell(slabs.drop_last(), cell);
    }
}

fn find_sum(sums: &Vec<Sum>, cell: (i32, i32)) -> (found: Option<usize>)
    ensures
        match found {
            Some(i) => i < sums@.len() && sums@[i as int].cell == cell,
            None => forall|i: int| 0 <= i < sums@.len() ==> (#[trigger] sums@[i]).cell != cell,
        },
{
    let mut i: usize = 0;
    while i < sums.len()
        invariant
            i <= sums.len(),
            forall|n: int| 0 <= n < i ==> (#[trigger] sums@[n]).cell != cell,
        decreases sums.len() - i,
    {
        if sums[i].cell.0 == cell.0 && sums[i].cell.1 == cell.1 {
            return Some(i);
        }
        i = i + 1;
    }
    None
}

proof fn lemma_average_fits(total: int, count: int)
    requires
        count > 0,
        count * i64::MIN <= total <= count * i64::MAX,
    ensures
        i64::MIN <= total / count <= i64::MAX,
{
    vstd::arithmetic::div_mod::lemma_fundamental_div_mod(total, count);
    let q = total / count;
    let r = total % count;
    assert(i64::MIN <= q <= i64::MAX) by (nonlinear_arith)
        requires
            total == count * q + r,
            0 <= r < count,
            count > 0,
            count * i64::MIN <= total <= count * i64::MAX,
    ;
}

/// One site per cell, at the average of the cell's slabs, so that an airport with
/// several runways gets a single stalk between them.
pub fn group_slabs(slabs: &Vec<SlabSite>) -> (sites: Vec<SlabSite>)
    requires
        slabs@.len() <= 1_000_000_000,
    ensures
        forall|i: int| 0 <= i < sites@.len() ==> is_average(#[trigger] sites@[i], slabs@),
        forall|i: int, j: int|
            0 <= i < j < sites@.len() ==> (#[trigger] sites@[i]).cell != (#[trigger] sites@[j]).cell,
        forall|k: int| 0 <= k < slabs@.len() ==> has_site(sites@, (#[trigger] slabs@[k]).cell),
{
    let mut sums: Vec<Sum> = Vec::new();
    let mut k: usize = 0;
    while k < slabs.len()
        invariant
            k <= slabs.len(),
            slabs@.len() <= 1_000_000_000,
            sums_hold(sums@, slabs@.take(k as int)),
        decreases slabs.len() - k,
    {
        let slab: SlabSite = slabs[k];
        let ghost seen = slabs@.take(k as int);
        let ghost next = slabs@.take(k + 1);
        let ghost before = sums@;
        proof {
            assert(next.drop_last() =~= seen);
            assert(next.last() == slab);
            lemma_sum_bound(seen, slab.cell);
            let c = cell_sum(seen, slab.cell).0;
            assert(c * i64::MIN >= -10_000_000_000_000_000_000_000_000_000);
            assert(c * i64::MAX <= 10_000_000_000_000_000_000_000_000_000);
        }
        match find_sum(&sums, slab.cell) {
            Some(i) => {
                let s: Sum = sums[i];
                let grown: Sum = Sum {
                    cell: s.cell,
                    count: s.count + 1,
                    x: s.x + slab.x as i128,
                    z: s.z + slab.z as i128,
                    elevation: s.elevation + slab.elevation as i128,
                };
                sums.set(i, grown);
                proof {
                    assert forall|m: int| 0 <= m < next.len() implies summed(
                        sums@,
                        (#[trigger] next[m]).cell,
                    ) by {
                        if m < k {
                            assert(next[m] == seen[m]);
                            let n = choose|n: int|
                                0 <= n < before.len() && (#[trigger] before[n]).cell
                                    == seen[m].cell;
                            assert(sums@[n].cell == before[n].cell);
                        } else {
                            assert(sums@[i as int].cell == next[m].cell);
                        }
                    }
                    assert forall|a: int, b: int| 0 <= a < b < sums@.len() implies (
                    #[trigger] sums@[a]).cell != (#[trigger] sums@[b]).cell by {
                        assert(sums@[a].cell == before[a].cell && sums@[b].cell == before[b].cell);
                    }
                    assert forall|n: int| 0 <= n < sums@.len() implies {
                        let s = #[trigger] sums@[n];
                        let t = cell_sum(next, s.cell);
                        &&& t == (s.count as int, s.x as int, s.z as int, s.elevation as int)
                        &&& s.count > 0
                    } by {
                        assert(sums@[n].cell == before[n].cell);
                        if n != i {
                            assert(sums@[n] == before[n]);
                            if n < i {
                                assert(before[n].cell != before[i as int].cell);
                            } else {
                                assert(before[i as int].cell != before[n].cell);
                            }
                        }
                    }
                }
            },
            None => {
                let fresh: Sum = Sum {
                    cell: slab.cell,
                    count: 1,
                    x: slab.x as i128,
                    z: slab.z as i128,
                    elevation: slab.elevation as i128,
                };
                sums.push(fresh);
                proof {
                    assert forall|m: int| 0 <= m < seen.len() implies (#[trigger] seen[m]).cell
                        != slab.cell by {
                        let n = choose|n: int|
                            0 <= n < before.len() && (#[trigger] before[n]).cell == seen[m].cell;
                        assert(before[n].cell != slab.cell);
                    }
                    lemma_absent_cell(seen, slab.cell);
                    assert forall|m: int| 0 <= m < next.len() implies summed(
                        sums@,
                        (#[trigger] next[m]).cell,
                    ) by {
                        if m < k {
                            assert(next[m] == seen[m]);
                            let n = choose|n: int|
                                0 <= n < before.len() && (#[trigger] before[n]).cell
                                    == seen[m].cell;
                            assert(sums@[n].cell == before[n].cell);
                        } else {
                            assert(sums@[before.len() as int].cell == next[m].cell);
                        }
                    }
                    assert forall|n: int| 0 <= n < sums@.len() implies {
                        let s = #[trigger] sums@[n];
                        let t = cell_sum(next, s.cell);
                        &&& t == (s.count as int, s.x as int, s.z as int, s.elevation as int)
                        &&& s.count > 0
                    } by {
                        if n < before.len() {
                            assert(sums@[n] == before[n]);
                        }
                    }
                }
            },
        }
        k = k + 1;
    }
    assert(slabs@.take(slabs@.len() as int) =~= slabs@);
    let mut sites: Vec<SlabSite> = Vec::with_capacity(sums.len());
    let mut i: usize = 0;
    while i < sums.len()
        invariant
            i <= sums.len(),
            slabs@.len() <= 1_000_000_000,
            sums_hold(sums@, slabs@),
            sites.len() == i,
            forall|n: int|
                0 <= n < i ==> is_average(#[trigger] sites@[n], slabs@) && sites@[n].cell
                    == sums@[n].cell,
        decreases sums.len() - i,
    {
        let s: Sum = sums[i];
        proof {
            lemma_sum_bound(slabs@, s.cell);
            let c = s.count as int;
            assert(c * i64::MIN >= -10_000_000_000_000_000_000_000_000_000);
            assert(c * i64::MAX <= 10_000_000_000_000_000_000_000_000_000);
            lemma_average_fits(s.x as int, s.count as int);
            lemma_average_fits(s.z as int, s.count as int);
            lemma_average_fits(s.elevation as int, s.count as int);
        }
        sites.push(
            SlabSite {
                cell: s.cell,
                x: floor_div(s.x, s.count) as i64,
                z: floor_div(s.z, s.count) as i64,
                elevation: floor_div(s.elevation, s.count) as i64,
            },
        );
        i = i + 1;
    }
    proof {
        assert forall|a: int, b: int| 0 <= a < b < sites@.len() implies (#[trigger] sites@[a]).cell
            != (#[trigger] sites@[b]).cell by {
            assert(sums@[a].cell != sums@[b].cell);
        }
        assert forall|k: int| 0 <= k < slabs@.len() implies has_site(
            sites@,
            (#[trigger] slabs@[k]).cell,
        ) by {
            assert(summed(sums@, slabs@[k].cell));
            let n = choose|n: int|
                0 <= n < sums@.len() && (#[trigger] sums@[n]).cell == slabs@[k].cell;
            assert(sites@[n].cell == sums@[n].cell);
        }
    }
    sites
}

/// Distance on the ground plane.
pub open spec fn ground_distance(ax: int, az: int, bx: int, bz: int) -> int {
    root((ax - bx) * (ax - bx) + (az - bz) * (az - bz))
}

/// How opaque a label is: full up to 30 km, gone by 120 km.
pub open spec fn label_opacity(distance: int) -> int {
    let past = if distance > 30_000_000_000_000 {
        distance - 30_000_000_000_000
    } else {
        0
    };
    clamped(ONE - past / 90_000, 0, ONE as int)
}

/// The label's opacity, where it is shown at all: from 2 km on, and while it is
/// not too faint.
pub open spec fn shown_opacity(distance: int) -> Option<int> {
    if distance < 2_000_000_000_000 || label_opacity(distance) <= 10_000_000 {
        None
    } else {
        Some(label_opacity(distance))
    }
}

/// A waypoint label: the distance from the plane and how opaque it is.
#[derive(Clone, Copy, Debug, PartialEq, Eq, Structural)]
pub struct WaypointLabel {
    pub distance: i64,
    pub opacity: i64,
}

/// How far out labels are looked at: any site beyond this on either axis has
/// faded.
const LOOKOUT: i128 = 200_000_000_000_000;

/// The label of a site as seen from the plane at `(x, z)`; none when the site is
/// closer than 2 km or has faded out.
pub fn waypoint_label(site: &SlabSite, x: i64, z: i64) -> (label: Option<WaypointLabel>)
    ensures
        ({
            let d = ground_distance(site.x as int, site.z as int, x as int, z as int);
            match label {
                Some(l) => l.distance == d && shown_opacity(d) == Some(l.opacity as int),
                None => shown_opacity(d) is None,
            }
        }),
{
    let dx: i128 = site.x as i128 - x as i128;
    let dz: i128 = site.z as i128 - z as i128;
    if dx < -LOOKOUT || dx > LOOKOUT || dz < -LOOKOUT || dz > LOOKOUT {
        proof {
            lemma_far_on_an_axis(dx as int, dz as int);
        }
        return None;
    }
    assert(0 <= dx * dx <= 40_000_000_000_000_000_000_000_000_000) by (nonlinear_arith)
        requires
            -200_000_000_000_000 <= dx <= 200_000_000_000_000,
    ;
    assert(0 <= dz * dz <= 40_000_000_000_000_000_000_000_000_000) by (nonlinear_arith)
        requires
            -200_000_000_000_000 <= dz <= 200_000_000_000_000,
    ;
    let d: i64 = sqrt_floor(dx * dx + dz * dz);
    if d < 2_000_000_000_000 {
        return None;
    }
    let past: i64 = if d > 30_000_000_000_000 {
        d - 30_000_000_000_000
    } else {
        0
    };
    let opacity: i64 = clamp(1_000_000_000 - (past / 90_000) as i128, 0, ONE);
    if opacity <= 10_000_000 {
        return None;
    }
    Some(WaypointLabel { distance: d, opacity })
}

proof fn lemma_far_on_an_axis(dx: int, dz: int)
    requires
        dx < -LOOKOUT || dx > LOOKOUT || dz < -LOOKOUT || dz > LOOKOUT,
    ensures
        root(dx * dx + dz * dz) >= LOOKOUT,
{
    let m = 200_000_000_000_000int;
    assert(dx * dx >= 0 && dz * dz >= 0) by (nonlinear_arith);
    if dx < -m || dx > m {
        assert(dx * dx >= m * m) by (nonlinear_arith)
            requires
                dx < -m || dx > m,
                m >= 0,
        ;
    } else {
        assert(dz * dz >= m * m) by (nonlinear_arith)
            requires
                dz < -m || dz > m,
                m >= 0,
        ;
    }
    root_is_at_least(m, dx * dx + dz * dz);
}

/// Labels fade with distance and never come back.
pub proof fn labels_fade_with_distance(near: int, far: int)
    requires
        2_000_000_000_000 <= near <= far,
    ensures
        shown_opacity(far) matches Some(b) ==> (shown_opacity(near) matches Some(a) && a >= b),
        far >= 120_000_000_000_000 ==> shown_opacity(far) is None,
{
}

/// The label's tip is too far outside the window to matter.
pub fn off_screen(x: i64, y: i64, width: i64, height: i64) -> (r: bool)
    requires
        0 <= width <= 1_000_000_000_000_000,
        0 <= height <= 1_000_000_000_000_000,
    ensures
        r <==> (x < -200_000_000_000 || x > width + 200_000_000_000 || y < -100_000_000_000 || y
            > height + 100_000_000_000),
{
    x < -200_000_000_000 || x > width + 200_000_000_000 || y < -100_000_000_000 || y > height
        + 100_000_000_000
}

/// The distance line of a label, in kilometres with one decimal.
pub fn distance_text(distance: i64) -> (text: String)
    requires
        distance >= 0,
    ensures
        text@ == rounded_text(distance as int / 1000, 1) + " km"@,
{
    let mut s: String = String::new();
    push_rounded(&mut s, (distance / 1000) as i128, 1);
    s.append(" km");
    assert(s@ =~= rounded_text(distance as int / 1000, 1) + " km"@);
    s
}

/// A stalk to draw: its ends in the world, how opaque stalk and text are, and
/// the two lines of text above it.
#[derive(Debug)]
pub struct Waypoint {
    pub cell: (i32, i32),
    pub base: Vec3,
    pub tip: Vec3,
    pub stalk_alpha: u8,
    pub text_alpha: u8,
    pub ident: String,
    pub distance: String,
}

/// The waypoint belongs to its cell's site as seen from `(x, z)`.
pub open spec fn is_waypoint(
    w: Waypoint,
    seed: u32,
    slabs: Seq<SlabSite>,
    x: int,
    z: int,
) -> bool {
    let s = cell_sum(slabs, w.cell);
    let (mx, mz, my) = (s.1 / s.0, s.2 / s.0, s.3 / s.0);
    let d = ground_distance(mx, mz, x, z);
    &&& s.0 > 0
    &&& shown_opacity(d) matches Some(o)
    &&& w.base.x == mx && w.base.z == mz && w.base.y == my + STALK_BASE_OFFSET
    &&& w.tip.x == mx && w.tip.z == mz && w.tip.y == my + STALK_TIP_OFFSET
    &&& w.stalk_alpha == o * 180 / (ONE as int)
    &&& w.text_alpha == o * 255 / (ONE as int)
    &&& w.ident@ == ident_of(hash_of_cell(seed, w.cell.0, w.cell.1))
    &&& w.distance@ == rounded_text(d / 1000, 1) + " km"@
}

/// The cell's site is to be shown from `(x, z)`.
pub open spec fn cell_shown(slabs: Seq<SlabSite>, cell: (i32, i32), x: int, z: int) -> bool {
    let s = cell_sum(slabs, cell);
    shown_opacity(ground_distance(s.1 / s.0, s.2 / s.0, x, z)) is Some
}

/// Some waypoint stands for the cell.
pub open spec fn has_waypoint(waypoints: Seq<Waypoint>, cell: (i32, i32)) -> bool {
    exists|i: int| 0 <= i < waypoints.len() && (#[trigger] waypoints[i]).cell == cell
}

proof fn lemma_elevation_bound(slabs: Seq<SlabSite>, cell: (i32, i32))
    requires
        forall|k: int|
            0 <= k < slabs.len() ==> coord_in_world((#[trigger] slabs[k]).elevation as int),
        cell_sum(slabs, cell).0 > 0,
    ensures
        coord_in_world(cell_sum(slabs, cell).3 / cell_sum(slabs, cell).0),
{
    lemma_elevation_total(slabs, cell);
    let n = cell_sum(slabs, cell).0;
    let t = cell_sum(slabs, cell).3;
    let m = MAX_COORD as int;
    vstd::arithmetic::div_mod::lemma_fundamental_div_mod(t, n);
    let q = t / n;
    let r = t % n;
    assert(-m <= q <= m) by (nonlinear_arith)
        requires
            t == n * q + r,
            0 <= r < n,
            -(n * m) <= t <= n * m,
    ;
}

proof fn lemma_elevation_total(slabs: Seq<SlabSite>, cell: (i32, i32))
    requires
        forall|k: int|
            0 <= k < slabs.len() ==> coord_in_world((#[trigger] slabs[k]).elevation as int),
    ensures
        -(cell_sum(slabs, cell).0 * MAX_COORD) <= cell_sum(slabs, cell).3 <= cell_sum(
            slabs,
            cell,
        ).0 * MAX_COORD,
    decreases slabs.len(),
{
    if slabs.len() > 0 {
        assert(slabs[slabs.len() - 1] == slabs.last());
        lemma_elevation_total(slabs.drop_last(), cell);
    }
}

/// The waypoints to draw for the loaded runways as seen from the plane at
/// `(x, z)`: one per airport that is neither too close nor faded out.
pub fn draw_waypoint_labels(seed: u32, slabs: &Vec<SlabSite>, x: i64, z: i64) -> (waypoints: Vec<
    Waypoint,
>)
    requires
        slabs@.len() <= 1_000_000_000,
        forall|k: int|
            0 <= k < slabs@.len() ==> coord_in_world((#[trigger] slabs@[k]).elevation as int),
    ensures
        forall|i: int|
            0 <= i < waypoints@.len() ==> is_waypoint(
                #[trigger] waypoints@[i],
                seed,
                slabs@,
                x as int,
                z as int,
            ),
        forall|i: int, j: int|
            0 <= i < j < waypoints@.len() ==> (#[trigger] waypoints@[i]).cell != (
            #[trigger] waypoints@[j]).cell,
        forall|k: int|
            0 <= k < slabs@.len() && cell_shown(slabs@, slabs@[k].cell, x as int, z as int)
                ==> has_waypoint(waypoints@, (#[trigger] slabs@[k]).cell),
{
    let sites: Vec<SlabSite> = group_slabs(slabs);
    let mut waypoints: Vec<Waypoint> = Vec::new();
    let mut i: usize = 0;
    while i < sites.len()
        invariant
            i <= sites.len(),
            forall|k: int|
                0 <= k < slabs@.len() ==> coord_in_world((#[trigger] slabs@[k]).elevation as int),
            forall|n: int| 0 <= n < sites@.len() ==> is_average(#[trigger] sites@[n], slabs@),
            forall|a: int, b: int|
                0 <= a < b < sites@.len() ==> (#[trigger] sites@[a]).cell != (
                #[trigger] sites@[b]).cell,
            forall|n: int|
                0 <= n < waypoints@.len() ==> is_waypoint(
                    #[trigger] waypoints@[n],
                    seed,
                    slabs@,
                    x as int,
                    z as int,
                ),
            forall|a: int, b: int|
                0 <= a < b < waypoints@.len() ==> (#[trigger] waypoints@[a]).cell != (
                #[trigger] waypoints@[b]).cell,
            forall|a: int, b: int|
                0 <= a < waypoints@.len() && i <= b < sites@.len() ==> (
                #[trigger] waypoints@[a]).cell != (#[trigger] sites@[b]).cell,
            forall|n: int|
                0 <= n < i && cell_shown(slabs@, sites@[n].cell, x as int, z as int)
                    ==> has_waypoint(waypoints@, (#[trigger] sites@[n]).cell),
        decreases sites.len() - i,
    {
        let site: SlabSite = sites[i];
        let ghost before = waypoints@;
        match waypoint_label(&site, x, z) {
            Some(label) => {
                proof {
                    lemma_elevation_bound(slabs@, site.cell);
                }
                let w: Waypoint = Waypoint {
                    cell: site.cell,
                    base: vec3(site.x, site.elevation + STALK_BASE_OFFSET, site.z),
                    tip: vec3(site.x, site.elevation + STALK_TIP_OFFSET, site.z),
                    stalk_alpha: (label.opacity * 180 / ONE) as u8,
                    text_alpha: (label.opacity * 255 / ONE) as u8,
                    ident: runway_ident(seed, site.cell),
                    distance: distance_text(label.distance),
                };
                assert(is_waypoint(w, seed, slabs@, x as int, z as int));
                waypoints.push(w);
                proof {
                    assert(waypoints@[before.len() as int].cell == site.cell);
                    assert(has_waypoint(waypoints@, site.cell));
                    assert forall|n: int|
                        0 <= n <= i && cell_shown(
                            slabs@,
                            sites@[n].cell,
                            x as int,
                            z as int,
                        ) implies has_waypoint(waypoints@, (#[trigger] sites@[n]).cell) by {
                        if n < i {
                            let m = choose|m: int|
                                0 <= m < before.len() && (#[trigger] before[m]).cell
                                    == sites@[n].cell;
                            assert(waypoints@[m] == before[m]);
                        }
                    }
                }
            },
            None => {},
        }
        i = i + 1;
    }
    proof {
        assert forall|k: int|
            0 <= k < slabs@.len() && cell_shown(
                slabs@,
                slabs@[k].cell,
                x as int,
                z as int,
            ) implies has_waypoint(waypoints@, (#[trigger] slabs@[k]).cell) by {
            assert(has_site(sites@, slabs@[k].cell));
            let n = choose|n: int|
                0 <= n < sites@.len() && (#[trigger] sites@[n]).cell == slabs@[k].cell;
            assert(has_waypoint(waypoints@, sites@[n].cell));
        }
    }
    waypoints
}

/// A canvas coordinate in the window: scaled, with the canvas centred.
pub open spec fn in_window(p: int, scale: int, window: int, canvas: int) -> int {
    scaled(p, scale) + (window - scaled(canvas, scale)) / 2
}

/// A canvas coordinate in the window: scaled, with the canvas centred.
pub fn to_window(p: i64, scale: i64, window: i64, canvas: i64) -> (r: i128)
    ensures
        r == in_window(p as int, scale as int, window as int, canvas as int),
{
    let s: i128 = crate::fixed::scale(p, scale);
    let c: i128 = crate::fixed::scale(canvas, scale);
    s + floor_div(window as i128 - c, 2)
}

/// Where the two lines of text go: centred over the tip, the ident above the
/// distance with a gap of 2 px, the block 6 px above the tip. Sizes are widths
/// and heights.
pub fn label_lines(tip: (i64, i64), ident: (i64, i64), distance: (i64, i64)) -> (lines: (
    (i128, i128),
    (i128, i128),
))
    ensures
        ({
            let top = tip.1 - (ident.1 + 2_000_000_000 + distance.1) - 6_000_000_000;
            &&& lines.0 == (((tip.0 - ident.0 / 2) as i128), (top as i128))
            &&& lines.1 == (
                ((tip.0 - distance.0 / 2) as i128),
                ((top + ident.1 + 2_000_000_000) as i128),
            )
        }),
{
    let top: i128 = tip.1 as i128 - (ident.1 as i128 + 2_000_000_000 + distance.1 as i128)
        - 6_000_000_000;
    let ident_x: i128 = tip.0 as i128 - floor_div(ident.0 as i128, 2);
    let distance_x: i128 = tip.0 as i128 - floor_div(distance.0 as i128, 2);
    ((ident_x, top), (distance_x, top + ident.1 as i128 + 2_000_000_000))
}

}
