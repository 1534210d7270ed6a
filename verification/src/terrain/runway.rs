//! Seeded runway placement. Runways live on a 5 km grid: each cell deterministically
//! yields one runway (jittered position, seeded heading) from the world seed, so
//! the layout is infinite, matches the terrain, and is the same for everyone on a
//! seed. Nothing is stored globally; a cell's runway is recomputed wherever it is
//! needed (terrain flattening, the gear, visual spawning).
//!
//! Terrain is levelled in an oriented rectangle around each strip, so the flat
//! ground hugs the runway shape. Lengths are in nanometres, angles in
//! nanoradians.

use super::cells::{clear, holds, insert, members, no_cells, remove};
use super::hash::{avalanche, cell_hash, hash01, hash_of_cell};
use super::streaming::scanned_before;
use crate::fixed::{blend, clamp, clamped, floor_div, root, scaled, sqrt_floor, ONE};
use bevy::platform::collections::HashSet;
use vstd::prelude::*;

verus! {

/// Realistic light-GA runway: 45 m wide, 2000 m long, the same for every strip.
pub const RUNWAY_WIDTH: i64 = 45_000_000_000;

pub const RUNWAY_LENGTH: i64 = 2_000_000_000_000;

/// Terrain is fully levelled within the runway rectangle expanded by this apron
/// beyond each edge, then ramps back to natural height over
/// [`RUNWAY_BLEND_MARGIN`].
pub const RUNWAY_FLAT_APRON: i64 = 320_000_000_000;

pub const RUNWAY_BLEND_MARGIN: i64 = 600_000_000_000;

/// How far the asphalt surface sits above the graded ground: 0.3 m.
pub const RUNWAY_SURFACE_LIFT: i64 = 300_000_000;

/// Grid spacing between runways, one per cell: 5 km.
pub const RUNWAY_SPACING: i64 = 5_000_000_000_000;

/// Width of the range in which a runway wanders about its grid point: 0.85 of
/// the spacing, so a runway stays within its own cell.
pub const RUNWAY_WANDER: i64 = 4_250_000_000_000;

/// Ground below this is water, and no runway is placed there: 3 m above the sea.
pub const RUNWAY_MIN_ABOVE_WATER: i64 = 3_000_000_000;

/// A half turn.
pub const HALF_TURN: i64 = 3_141_592_654;

/// Largest cell coordinate whose runway position can be held.
pub const MAX_CELL: i32 = 799_999;

/// Where a cell's runway lies, before the ground under it is known.
#[derive(Clone, Copy, Debug, PartialEq, Eq)]
pub struct RunwaySite {
    pub x: i64,
    pub z: i64,
    pub heading: i64,
    pub cell: (i32, i32),
}

/// One placed runway. `elevation` is the height its asphalt sits at, and that
/// terrain is flattened to around it.
#[derive(Clone, Copy, Debug, PartialEq, Eq)]
pub struct RunwayInstance {
    pub x: i64,
    pub z: i64,
    pub heading: i64,
    pub elevation: i64,
    /// The grid cell this strip belongs to: its stable identity, from which the
    /// map overlay's ident is derived (see [`runway_ident`]).
    pub cell: (i32, i32),
}

/// A heading in tens of degrees, rounded to the nearest, as `0..36`.
pub open spec fn heading_tens(heading: int) -> int {
    ((36 * heading + HALF_TURN) / (2 * HALF_TURN)) % 36
}

/// The number painted for a heading: its tens of degrees, north as 36.
pub open spec fn painted_number(heading: int) -> int {
    if heading_tens(heading) == 0 {
        36
    } else {
        heading_tens(heading)
    }
}

/// The number at the other end of the strip.
pub open spec fn reciprocal(number: int) -> int {
    if number + 18 > 36 {
        number - 18
    } else {
        number + 18
    }
}

/// How far `v` lies outside `-half..=half`.
pub open spec fn excess(v: int, half: int) -> int {
    let a = if v < 0 {
        -v
    } else {
        v
    };
    if a > half {
        a - half
    } else {
        0
    }
}

/// Distance from the levelled rectangle, in the runway's own frame.
pub open spec fn apron_distance(lx: int, lz: int) -> int {
    let dx = excess(lx, RUNWAY_WIDTH / 2 + RUNWAY_FLAT_APRON);
    let dz = excess(lz, RUNWAY_LENGTH / 2 + RUNWAY_FLAT_APRON);
    root(dx * dx + dz * dz)
}

/// Smooth falloff from one at `t == 0` to zero at `t == 1`.
pub open spec fn falloff(t: int) -> int {
    ONE - (t * t * (3 * ONE - 2 * t)) / 1_000_000_000_000_000_000
}

/// Weight with which a runway levels the ground at a point of its own frame.
pub open spec fn level_weight(lx: int, lz: int) -> int {
    falloff(clamped(apron_distance(lx, lz) / 600, 0, ONE as int))
}

/// The point lies on the asphalt itself.
pub open spec fn paved(lx: int, lz: int) -> bool {
    excess(lx, RUNWAY_WIDTH / 2) == 0 && excess(lz, RUNWAY_LENGTH / 2) == 0
}

fn outside(v: i64, half: i64) -> (r: i64)
    requires
        1 <= half,
    ensures
        r == excess(v as int, half as int),
        r >= 0,
{
    if v >= 0 {
        if v > half {
            v - half
        } else {
            0
        }
    } else if v < -half {
        -(v + half)
    } else {
        0
    }
}

impl RunwayInstance {
    /// The two runway numbers (one per direction), each the heading in tens of
    /// degrees mapped to 1..=36, with the reciprocal 180 degrees opposite. A
    /// heading of 170 degrees gives `(17, 35)`. Low number first.
    pub fn runway_numbers(&self) -> (numbers: (u32, u32))
        ensures
            ({
                let a = painted_number(self.heading as int);
                let b = reciprocal(a);
                numbers == if a <= b {
                    (a as u32, b as u32)
                } else {
                    (b as u32, a as u32)
                }
            }),
    {
        let q: i128 = floor_div(36 * (self.heading as i128) + 3_141_592_654, 6_283_185_308);
        let turns: i128 = floor_div(q, 36);
        let tens: i128 = q - 36 * turns;
        let a: u32 = if tens == 0 {
            36
        } else {
            tens as u32
        };
        let b: u32 = if a + 18 > 36 {
            a - 18
        } else {
            a + 18
        };
        if a <= b {
            (a, b)
        } else {
            (b, a)
        }
    }
}

/// A coordinate in a runway's frame beyond which a point is far from it.
pub const FAR: i64 = 9_000_000_000_000_000_000;

/// Where a point that is `(px, pz)` from a runway's centre lies in the runway's own
/// frame, its length along z, given the sine and cosine of its heading. Points that
/// are far off are held at [`FAR`].
pub open spec fn frame_point(px: int, pz: int, sin: int, cos: int) -> (int, int) {
    (
        clamped((px * cos - pz * sin) / (ONE as int), -FAR as int, FAR as int),
        clamped((px * sin + pz * cos) / (ONE as int), -FAR as int, FAR as int),
    )
}

fn turned(a: i128, b: i128, p: i64, q: i64) -> (r: i64)
    requires
        -0x1_0000_0000_0000_0000 <= a <= 0x1_0000_0000_0000_0000,
        -0x1_0000_0000_0000_0000 <= b <= 0x1_0000_0000_0000_0000,
        -ONE <= p <= ONE,
        -ONE <= q <= ONE,
    ensures
        r == clamped((a * p + b * q) / (ONE as int), -FAR as int, FAR as int),
{
    let x: i128 = p as i128;
    let y: i128 = q as i128;
    assert(-0x1_0000_0000_0000_0000 * 1_000_000_000 <= a * x <= 0x1_0000_0000_0000_0000
        * 1_000_000_000) by (nonlinear_arith)
        requires
            -0x1_0000_0000_0000_0000 <= a <= 0x1_0000_0000_0000_0000,
            -1_000_000_000 <= x <= 1_000_000_000,
    ;
    assert(-0x1_0000_0000_0000_0000 * 1_000_000_000 <= b * y <= 0x1_0000_0000_0000_0000
        * 1_000_000_000) by (nonlinear_arith)
        requires
            -0x1_0000_0000_0000_0000 <= b <= 0x1_0000_0000_0000_0000,
            -1_000_000_000 <= y <= 1_000_000_000,
    ;
    clamp(floor_div(a * x + b * y, 1_000_000_000), -FAR, FAR)
}

impl RunwayInstance {
    /// Where the point `(x, z)` lies in the runway's own frame, given the sine and
    /// cosine of the runway's heading.
    pub fn local_point(&self, sin: i64, cos: i64, x: i64, z: i64) -> (point: (i64, i64))
        requires
            -ONE <= sin <= ONE,
            -ONE <= cos <= ONE,
        ensures
            (point.0 as int, point.1 as int) == frame_point(
                x - self.x,
                z - self.z,
                sin as int,
                cos as int,
            ),
    {
        let px: i128 = x as i128 - self.x as i128;
        let pz: i128 = z as i128 - self.z as i128;
        assert(px * cos - pz * sin == px * cos + pz * (-sin)) by (nonlinear_arith);
        (turned(px, pz, cos, -sin), turned(px, pz, sin, cos))
    }
}

/// A runway's centre is the origin of its frame, and a runway along z needs no
/// turning: a point of the world is where it is from the centre.
pub proof fn frame_starts_at_the_centre(px: int, pz: int, sin: int, cos: int)
    requires
        -FAR <= px <= FAR,
        -FAR <= pz <= FAR,
    ensures
        frame_point(0, 0, sin, cos) == (0int, 0int),
        frame_point(px, pz, 0, ONE as int) == (px, pz),
{
    assert(0 * cos - 0 * sin == 0 && 0 * sin + 0 * cos == 0) by (nonlinear_arith);
    assert(pz * 0 == 0 && px * 0 == 0) by (nonlinear_arith);
}

/// Flatten weight at a point of the runway's own frame (length along z): one
/// inside the runway rectangle plus apron, ramping to zero by
/// [`RUNWAY_BLEND_MARGIN`] beyond it.
pub fn flatten_weight(lx: i64, lz: i64) -> (w: i64)
    ensures
        w == level_weight(lx as int, lz as int),
        0 <= w <= ONE,
{
    let dx: i64 = outside(lx, 342_500_000_000);
    let dz: i64 = outside(lz, 1_320_000_000_000);
    let margin: i64 = 600_000_000_000;
    proof {
        let n = dx * dx + dz * dz;
        if dx >= margin || dz >= margin {
            far_root(dx as int, dz as int, margin as int);
        }
    }
    if dx >= margin || dz >= margin {
        assert(falloff(ONE as int) == 0);
        return 0;
    }
    assert(0 <= dx * dx <= 600_000_000_000 * 600_000_000_000) by (nonlinear_arith)
        requires
            0 <= dx <= 600_000_000_000,
    ;
    assert(0 <= dz * dz <= 600_000_000_000 * 600_000_000_000) by (nonlinear_arith)
        requires
            0 <= dz <= 600_000_000_000,
    ;
    let n: i128 = (dx as i128) * (dx as i128) + (dz as i128) * (dz as i128);
    let d: i64 = sqrt_floor(n);
    let step: i64 = d / 600;
    let t: i128 = if step > 1_000_000_000 {
        1_000_000_000
    } else {
        step as i128
    };
    proof {
        falloff_is_a_fraction(t as int);
        lemma_cube_bound(t as int);
    }
    (1_000_000_000 - (t * t * (3_000_000_000 - 2 * t)) / 1_000_000_000_000_000_000) as i64
}

proof fn lemma_cube_bound(t: int)
    requires
        0 <= t <= ONE,
    ensures
        0 <= t * t <= 1_000_000_000_000_000_000,
        0 <= t * t * (3 * ONE - 2 * t) <= 3_000_000_000_000_000_000_000_000_000,
{
    assert(0 <= t * t <= 1_000_000_000_000_000_000) by (nonlinear_arith)
        requires
            0 <= t <= 1_000_000_000,
    ;
    let s = t * t;
    let u = 3 * ONE - 2 * t;
    assert(0 <= s * u <= 1_000_000_000_000_000_000 * 3_000_000_000) by (nonlinear_arith)
        requires
            0 <= s <= 1_000_000_000_000_000_000,
            0 <= u <= 3_000_000_000,
    ;
}

/// A leg of the margin's length makes a distance of at least that.
pub proof fn far_root(dx: int, dz: int, margin: int)
    requires
        0 <= dx <= i64::MAX,
        0 <= dz <= i64::MAX,
        margin == RUNWAY_BLEND_MARGIN,
        dx >= margin || dz >= margin,
    ensures
        root(dx * dx + dz * dz) >= margin,
{
    let n = dx * dx + dz * dz;
    assert(n >= margin * margin) by (nonlinear_arith)
        requires
            n == dx * dx + dz * dz,
            0 <= dx,
            0 <= dz,
            dx >= margin || dz >= margin,
            margin > 0,
    ;
    crate::fixed::root_exists(n);
    let r = root(n);
    assert(r >= margin) by (nonlinear_arith)
        requires
            n >= margin * margin,
            n < (r + 1) * (r + 1),
            r >= 0,
            margin > 0,
    ;
}

/// The falloff is a fraction.
pub proof fn falloff_is_a_fraction(t: int)
    requires
        0 <= t <= ONE,
    ensures
        0 <= falloff(t) <= ONE,
{
    let one: int = 1_000_000_000;
    lemma_cube_bound(t);
    assert(t * t * (3 * one - 2 * t) <= one * one * one) by (nonlinear_arith)
        requires
            0 <= t <= one,
            one == 1_000_000_000,
    {
        let r = one - t;
        // one^3 - t^2 (3 one - 2 t) == (one - t)^2 (one + 2 t)
        assert(one * one * one - t * t * (3 * one - 2 * t) == r * r * (one + 2 * t));
        assert(r * r >= 0);
        assert(r * r * (one + 2 * t) >= 0);
    }
}

/// The falloff never rises with distance.
pub proof fn falloff_is_monotone(t: int, u: int)
    requires
        0 <= t <= u <= ONE,
    ensures
        falloff(t) >= falloff(u),
{
    let one: int = 1_000_000_000;
    assert(t * t * (3 * one - 2 * t) <= u * u * (3 * one - 2 * u)) by (nonlinear_arith)
        requires
            0 <= t <= u <= one,
    {
        let d = u - t;
        let k = 3 * one * (u + t) - 2 * (u * u + u * t + t * t);
        assert(u * u * (3 * one - 2 * u) - t * t * (3 * one - 2 * t) == d * k);
        assert(u * u <= one * u);
        assert(u * t <= one * t);
        assert(t * t <= one * t);
        assert(k >= 3 * one * (u + t) - 2 * (one * u + one * t + one * t));
        assert(one * u >= one * t);
        assert(k >= 0);
        assert(d * k >= 0);
    }
    vstd::arithmetic::div_mod::lemma_div_is_ordered(
        t * t * (3 * one - 2 * t),
        u * u * (3 * one - 2 * u),
        1_000_000_000_000_000_000,
    );
}

/// Whether a point of the runway's own frame lies on the asphalt, where the gear
/// should rest on the raised surface.
pub fn on_pavement(lx: i64, lz: i64) -> (r: bool)
    ensures
        r == paved(lx as int, lz as int),
{
    outside(lx, 22_500_000_000) == 0 && outside(lz, 1_000_000_000_000) == 0
}

/// The two numbers of a strip are a half turn apart and in `1..=36`.
pub proof fn numbers_are_reciprocal(heading: int)
    ensures
        1 <= painted_number(heading) <= 36,
        1 <= reciprocal(painted_number(heading)) <= 36,
        reciprocal(reciprocal(painted_number(heading))) == painted_number(heading),
{
}

/// A strip flown from the other end has the same two numbers.
pub proof fn numbers_of_the_other_end(heading: int)
    ensures
        painted_number(heading + HALF_TURN) == reciprocal(painted_number(heading)),
{
    let q = (36 * heading + HALF_TURN) / (2 * HALF_TURN);
    assert(36 * (heading + HALF_TURN) + HALF_TURN == 36 * heading + HALF_TURN + 18 * (2
        * HALF_TURN));
    vstd::arithmetic::div_mod::lemma_hoist_over_denominator(
        36 * heading + HALF_TURN,
        18,
        (2 * HALF_TURN) as nat,
    );
    assert((36 * (heading + HALF_TURN) + HALF_TURN) / (2 * HALF_TURN) == q + 18);
}

/// A cell whose runway position can be held.
pub open spec fn cell_in_world(cell: (i32, i32)) -> bool {
    -MAX_CELL <= cell.0 <= MAX_CELL && -MAX_CELL <= cell.1 <= MAX_CELL
}

/// Displacement from the grid point for a draw in `0..2^24`.
pub open spec fn wander(draw: int) -> int {
    ((draw - 0x80_0000) * RUNWAY_WANDER) / 0x100_0000
}

/// The site of a cell's runway. Cell `(0, 0)` is the aircraft's spawn point: its
/// strip lies at the origin with heading zero. A runway is bidirectional, so a
/// half turn covers every distinct heading of the others.
pub open spec fn site_of(seed: u32, cell: (i32, i32)) -> RunwaySite {
    if cell.0 == 0 && cell.1 == 0 {
        RunwaySite { x: 0, z: 0, heading: 0, cell }
    } else {
        let h = hash_of_cell(seed, cell.0, cell.1);
        RunwaySite {
            x: (cell.0 * RUNWAY_SPACING + wander((avalanche(h) >> 8) as int)) as i64,
            z: (cell.1 * RUNWAY_SPACING + wander((avalanche(h ^ 0x68bc_21eb) >> 8) as int)) as i64,
            heading: (((avalanche(h ^ 0x2545_f491) >> 8) * HALF_TURN) / 0x100_0000) as i64,
            cell,
        }
    }
}

/// A displacement stays under half the spacing.
pub proof fn wander_is_bounded(draw: int)
    requires
        0 <= draw < 0x100_0000,
    ensures
        -RUNWAY_WANDER / 2 <= wander(draw) < RUNWAY_WANDER / 2,
{
}

fn displacement(draw: u32) -> (d: i64)
    requires
        draw < 0x100_0000,
    ensures
        d == wander(draw as int),
        -RUNWAY_WANDER / 2 <= d < RUNWAY_WANDER / 2,
{
    let centred: i128 = draw as i128 - 0x80_0000;
    floor_div(centred * 4_250_000_000_000, 0x100_0000) as i64
}

/// The site of the runway of grid cell `(gx, gz)`.
pub fn runway_site(seed: u32, gx: i32, gz: i32) -> (site: RunwaySite)
    requires
        cell_in_world((gx, gz)),
    ensures
        site == site_of(seed, (gx, gz)),
        -4_000_000_000_000_000_000 <= site.x <= 4_000_000_000_000_000_000,
        -4_000_000_000_000_000_000 <= site.z <= 4_000_000_000_000_000_000,
        0 <= site.heading < HALF_TURN,
{
    if gx == 0 && gz == 0 {
        return RunwaySite { x: 0, z: 0, heading: 0, cell: (gx, gz) };
    }
    let h: u32 = cell_hash(seed, gx, gz);
    let draw_x: u32 = hash01(h);
    let draw_z: u32 = hash01(h ^ 0x68bc_21eb);
    let draw_heading: u32 = hash01(h ^ 0x2545_f491);
    RunwaySite {
        x: gx as i64 * RUNWAY_SPACING + displacement(draw_x),
        z: gz as i64 * RUNWAY_SPACING + displacement(draw_z),
        heading: ((draw_heading as u64 * 3_141_592_654) / 0x100_0000) as i64,
        cell: (gx, gz),
    }
}

/// Every runway lies nearer to its own grid point than to any other: it stays
/// within its own cell.
pub proof fn runways_stay_in_their_cell(seed: u32, cell: (i32, i32))
    requires
        cell_in_world(cell),
    ensures
        cell.0 * RUNWAY_SPACING - RUNWAY_SPACING / 2 < site_of(seed, cell).x < cell.0
            * RUNWAY_SPACING + RUNWAY_SPACING / 2,
        cell.1 * RUNWAY_SPACING - RUNWAY_SPACING / 2 < site_of(seed, cell).z < cell.1
            * RUNWAY_SPACING + RUNWAY_SPACING / 2,
{
    let h = hash_of_cell(seed, cell.0, cell.1);
    let p = avalanche(h);
    let q = avalanche(h ^ 0x68bc_21eb);
    assert(p >> 8 < 0x100_0000 && q >> 8 < 0x100_0000) by (bit_vector);
    wander_is_bounded((p >> 8) as int);
    wander_is_bounded((q >> 8) as int);
}

/// A runway of another cell than the spawn point's stays well over two kilometres
/// from the origin along one of the axes.
pub proof fn wander_keeps_clear(seed: u32, cell: (i32, i32))
    requires
        cell_in_world(cell),
        cell != (0i32, 0i32),
    ensures
        ({
            let site = site_of(seed, cell);
            ||| site.x >= 2_870_000_000_000
            ||| site.x <= -2_870_000_000_000
            ||| site.z >= 2_870_000_000_000
            ||| site.z <= -2_870_000_000_000
        }),
{
    let h = hash_of_cell(seed, cell.0, cell.1);
    let p = avalanche(h);
    let q = avalanche(h ^ 0x68bc_21eb);
    assert(p >> 8 < 0x100_0000 && q >> 8 < 0x100_0000) by (bit_vector);
    wander_is_bounded((p >> 8) as int);
    wander_is_bounded((q >> 8) as int);
}

/// The runway of a site whose ground lies at `elevation`: none where that is
/// water, but always one at the spawn point.
pub open spec fn placed_at(site: RunwaySite, elevation: i64) -> Option<RunwayInstance> {
    if site.cell != (0i32, 0i32) && elevation < RUNWAY_MIN_ABOVE_WATER {
        None
    } else {
        Some(
            RunwayInstance {
                x: site.x,
                z: site.z,
                heading: site.heading,
                elevation,
                cell: site.cell,
            },
        )
    }
}

/// The runway for a site, or `None` if the cell is water (its natural ground is
/// below sea level, or barely above) so no strip is placed there. Cell (0, 0) is
/// always present. Every runway sits level with the natural terrain at its
/// centre.
pub fn runway_for_cell(site: &RunwaySite, elevation: i64) -> (runway: Option<RunwayInstance>)
    ensures
        runway == placed_at(*site, elevation),
{
    if !(site.cell.0 == 0 && site.cell.1 == 0) && elevation < RUNWAY_MIN_ABOVE_WATER {
        return None;
    }
    Some(
        RunwayInstance {
            x: site.x,
            z: site.z,
            heading: site.heading,
            elevation,
            cell: site.cell,
        },
    )
}

/// The letter for a number, counted from `A` and round again after `Z`.
pub open spec fn letter(n: int) -> char {
    (65 + n % 26) as char
}

/// The ident that a cell's hash spells.
pub open spec fn ident_of(h: u32) -> Seq<char> {
    seq!['K', letter(h as int), letter((h / 26) as int), letter((h / 676) as int)]
}

/// A deterministic 4-letter ident for a runway's grid cell under `seed`, e.g.
/// `"KQXR"`; for the map overlay, not tied to any real-world airport coding.
pub fn runway_ident(seed: u32, cell: (i32, i32)) -> (ident: String)
    ensures
        ident@ == ident_of(hash_of_cell(seed, cell.0, cell.1)),
{
    let hash: u32 = cell_hash(seed, cell.0, cell.1);
    let mut h: u32 = hash;
    let mut s: String = String::new();
    s.push('K');
    let mut i: u32 = 0;
    while i < 3
        invariant
            i <= 3,
            i == 0 ==> h == hash && s@ == seq!['K'],
            i == 1 ==> h == hash / 26 && s@ == seq!['K', letter(hash as int)],
            i == 2 ==> h == hash / 676 && s@ == seq![
                'K',
                letter(hash as int),
                letter((hash / 26) as int),
            ],
            i == 3 ==> s@ == ident_of(hash),
        decreases 3 - i,
    {
        s.push((65u8 + (h % 26) as u8) as char);
        h = h / 26;
        i = i + 1;
    }
    s
}

proof fn lemma_letters(a: u32)
    ensures
        a % 17576 == a % 26 + 26 * ((a / 26) % 26) + 676 * ((a / 676) % 26),
{
    let k = a / 17576;
    let r = a % 17576;
    let q = r / 26;
    let p = q / 26;
    assert(a == 17576 * k + r);
    assert(r == 26 * q + r % 26 && q == 26 * p + q % 26 && p < 26);
    assert(a / 26 == 676 * k + q && a % 26 == r % 26);
    assert(a / 676 == 26 * k + p);
    assert((a / 26) % 26 == q % 26);
    assert((a / 676) % 26 == p);
}

/// Two cells share an ident exactly when their hashes agree modulo 26 cubed.
pub proof fn idents_agree_by_hash(a: u32, b: u32)
    ensures
        ident_of(a) == ident_of(b) <==> a % 17576 == b % 17576,
{
    let x = ident_of(a);
    let y = ident_of(b);
    lemma_letters(a);
    lemma_letters(b);
    lemma_letter_injective(a as int, b as int);
    lemma_letter_injective((a / 26) as int, (b / 26) as int);
    lemma_letter_injective((a / 676) as int, (b / 676) as int);
    if x == y {
        assert(x[1] == y[1] && x[2] == y[2] && x[3] == y[3]);
    }
    if a % 17576 == b % 17576 {
        assert(x =~= y);
    }
}

proof fn lemma_letter_injective(m: int, n: int)
    ensures
        letter(m) == letter(n) <==> m % 26 == n % 26,
{
    assert(letter(m) as int == 65 + m % 26);
    assert(letter(n) as int == 65 + n % 26);
}

/// Largest coordinate for which neighbouring runways are looked up: 3.9 million
/// kilometres from the origin.
pub const MAX_COORD: i64 = 3_900_000_000_000_000_000;

/// Largest view radius, in chunks, for which runways are streamed.
pub const MAX_RENDER_DISTANCE: i32 = 100_000;

pub open spec fn coord_in_world(v: int) -> bool {
    -MAX_COORD <= v <= MAX_COORD
}

/// A coordinate in grid spacings, rounded to the nearest integer, halves away
/// from zero.
pub open spec fn nearest_cell(v: int) -> int {
    if v >= 0 {
        (v + RUNWAY_SPACING / 2) / (RUNWAY_SPACING as int)
    } else {
        -((-v + RUNWAY_SPACING / 2) / (RUNWAY_SPACING as int))
    }
}

fn round_to_cell(v: i64) -> (n: i32)
    requires
        coord_in_world(v as int),
    ensures
        n == nearest_cell(v as int),
        -780_000 <= n <= 780_000,
{
    let half: i64 = 2_500_000_000_000;
    if v >= 0 {
        ((v + half) / RUNWAY_SPACING) as i32
    } else {
        -(((-v + half) / RUNWAY_SPACING) as i32)
    }
}

/// The cell lies in the rectangle, edges included.
pub open spec fn in_rectangle(cell: (i32, i32), lo: (i32, i32), hi: (i32, i32)) -> bool {
    lo.0 <= cell.0 <= hi.0 && lo.1 <= cell.1 <= hi.1
}

/// `cells` lists what `wanted` holds of, each once, column by column.
pub open spec fn lists_cells(cells: Seq<(i32, i32)>, wanted: spec_fn((i32, i32)) -> bool) -> bool {
    &&& forall|c: (i32, i32)| #[trigger] cells.contains(c) <==> wanted(c)
    &&& forall|i: int, j: int|
        0 <= i < j < cells.len() ==> scanned_before(#[trigger] cells[i], #[trigger] cells[j])
}

proof fn lemma_push_contains(before: Seq<(i32, i32)>, cell: (i32, i32))
    ensures
        forall|c: (i32, i32)| #[trigger]
            before.push(cell).contains(c) <==> (before.contains(c) || c == cell),
{
    let now = before.push(cell);
    assert forall|c: (i32, i32)| #[trigger] now.contains(c) <==> (before.contains(c) || c
        == cell) by {
        if before.contains(c) {
            let i = choose|i: int| 0 <= i < before.len() && before[i] == c;
            assert(now[i] == c);
        }
        if c == cell {
            assert(now[before.len() as int] == c);
        }
    }
}

/// The cells of a rectangle that are not in `skip`, column by column.
fn missing_cells(lo: (i32, i32), hi: (i32, i32), skip: &HashSet<(i32, i32)>) -> (cells: Vec<
    (i32, i32),
>)
    ensures
        lists_cells(
            cells@,
            |c: (i32, i32)| in_rectangle(c, lo, hi) && !members(*skip).contains(c),
        ),
{
    let ghost wanted = |c: (i32, i32)| in_rectangle(c, lo, hi) && !members(*skip).contains(c);
    let mut cells: Vec<(i32, i32)> = Vec::new();
    let mut x: i64 = lo.0 as i64;
    while x <= hi.0 as i64
        invariant
            lo.0 <= x,
            x <= hi.0 + 1 || lo.0 > hi.0,
            wanted == |c: (i32, i32)| in_rectangle(c, lo, hi) && !members(*skip).contains(c),
            forall|c: (i32, i32)| #[trigger] cells@.contains(c) <==> (wanted(c) && c.0 < x),
            forall|i: int, j: int|
                0 <= i < j < cells@.len() ==> scanned_before(
                    #[trigger] cells@[i],
                    #[trigger] cells@[j],
                ),
        decreases hi.0 + 1 - x,
    {
        let mut z: i64 = lo.1 as i64;
        while z <= hi.1 as i64
            invariant
                lo.0 <= x <= hi.0,
                lo.1 <= z,
                z <= hi.1 + 1 || lo.1 > hi.1,
                wanted == |c: (i32, i32)| in_rectangle(c, lo, hi) && !members(*skip).contains(c),
                forall|c: (i32, i32)| #[trigger]
                    cells@.contains(c) <==> (wanted(c) && (c.0 < x || (c.0 == x && c.1 < z))),
                forall|i: int, j: int|
                    0 <= i < j < cells@.len() ==> scanned_before(
                        #[trigger] cells@[i],
                        #[trigger] cells@[j],
                    ),
            decreases hi.1 + 1 - z,
        {
            let cell: (i32, i32) = (x as i32, z as i32);
            let ghost before = cells@;
            if !holds(skip, cell) {
                proof {
                    assert(forall|i: int|
                        0 <= i < before.len() ==> before.contains(#[trigger] before[i]));
                    lemma_push_contains(before, cell);
                }
                cells.push(cell);
            }
            proof {
                assert forall|c: (i32, i32)| #[trigger]
                    cells@.contains(c) <==> (wanted(c) && (c.0 < x || (c.0 == x && c.1 < z
                        + 1))) by {
                    assert(before.contains(c) <==> (wanted(c) && (c.0 < x || (c.0 == x && c.1
                        < z))));
                    assert(c.0 == x && c.1 == z ==> c == cell);
                }
            }
            z = z + 1;
        }
        x = x + 1;
    }
    cells
}

/// The cells around a world-space box, padded by one cell so that strips whose
/// influence reaches in from a neighbour are listed too.
pub open spec fn around_box(
    cell: (i32, i32),
    min_x: int,
    min_z: int,
    max_x: int,
    max_z: int,
) -> bool {
    &&& nearest_cell(min_x) - 1 <= cell.0 <= nearest_cell(max_x) + 1
    &&& nearest_cell(min_z) - 1 <= cell.1 <= nearest_cell(max_z) + 1
}

/// `sites` holds the site of each listed cell, in order.
pub open spec fn sites_of(sites: Seq<RunwaySite>, seed: u32, cells: Seq<(i32, i32)>) -> bool {
    sites == cells.map_values(|c: (i32, i32)| site_of(seed, c))
}

fn sites_for(seed: u32, cells: &Vec<(i32, i32)>) -> (sites: Vec<RunwaySite>)
    requires
        forall|i: int| 0 <= i < cells@.len() ==> cell_in_world(#[trigger] cells@[i]),
    ensures
        sites_of(sites@, seed, cells@),
        forall|i: int|
            0 <= i < sites@.len() ==> coord_in_reach((#[trigger] sites@[i]).x as int)
                && coord_in_reach(sites@[i].z as int),
{
    let mut sites: Vec<RunwaySite> = Vec::with_capacity(cells.len());
    let mut i: usize = 0;
    while i < cells.len()
        invariant
            i <= cells.len(),
            sites.len() == i,
            forall|i: int| 0 <= i < cells@.len() ==> cell_in_world(#[trigger] cells@[i]),
            forall|n: int| 0 <= n < i ==> #[trigger] sites@[n] == site_of(seed, cells@[n]),
            forall|n: int|
                0 <= n < i ==> coord_in_reach((#[trigger] sites@[n]).x as int) && coord_in_reach(
                    sites@[n].z as int,
                ),
        decreases cells.len() - i,
    {
        sites.push(runway_site(seed, cells[i].0, cells[i].1));
        i = i + 1;
    }
    assert(sites@ =~= cells@.map_values(|c: (i32, i32)| site_of(seed, c)));
    sites
}

/// A coordinate at which a runway can lie.
pub open spec fn coord_in_reach(v: int) -> bool {
    -4_000_000_000_000_000_000 <= v <= 4_000_000_000_000_000_000
}

/// The sites to look at for a world-space box.
pub fn region_sites(seed: u32, min_x: i64, min_z: i64, max_x: i64, max_z: i64) -> (sites: Vec<
    RunwaySite,
>)
    requires
        coord_in_world(min_x as int),
        coord_in_world(min_z as int),
        coord_in_world(max_x as int),
        coord_in_world(max_z as int),
    ensures
        exists|cells: Seq<(i32, i32)>| #[trigger]
            sites_of(sites@, seed, cells) && lists_cells(
                cells,
                |c: (i32, i32)|
                    around_box(c, min_x as int, min_z as int, max_x as int, max_z as int),
            ),
{
    let lo: (i32, i32) = (round_to_cell(min_x) - 1, round_to_cell(min_z) - 1);
    let hi: (i32, i32) = (round_to_cell(max_x) + 1, round_to_cell(max_z) + 1);
    let none: HashSet<(i32, i32)> = no_cells();
    let cells: Vec<(i32, i32)> = missing_cells(lo, hi, &none);
    let ghost wanted = |c: (i32, i32)| in_rectangle(c, lo, hi) && !members(none).contains(c);
    let ghost around = |c: (i32, i32)|
        around_box(c, min_x as int, min_z as int, max_x as int, max_z as int);
    assert forall|i: int| 0 <= i < cells@.len() implies cell_in_world(#[trigger] cells@[i]) by {
        assert(cells@.contains(cells@[i]));
        assert(wanted(cells@[i]));
    }
    assert(lists_cells(cells@, around)) by {
        assert forall|c: (i32, i32)| #[trigger] cells@.contains(c) <==> around(c) by {
            assert(cells@.contains(c) <==> wanted(c));
        }
    }
    sites_for(seed, &cells)
}

/// The runways of those sites that are not water, in order. `heights` gives the
/// natural ground at each site.
pub open spec fn placed(sites: Seq<RunwaySite>, heights: Seq<i64>) -> Seq<RunwayInstance>
    decreases sites.len(),
{
    if sites.len() == 0 {
        Seq::empty()
    } else {
        let before = placed(sites.drop_last(), heights);
        match placed_at(sites.last(), heights[sites.len() - 1]) {
            Some(r) => before.push(r),
            None => before,
        }
    }
}

/// The runways of the sites of a region (water cells yield nothing). Used to
/// resolve a chunk's runways once, before the per-vertex flatten.
pub fn runways_in_region(sites: &Vec<RunwaySite>, heights: &Vec<i64>) -> (runways: Vec<
    RunwayInstance,
>)
    requires
        heights@.len() == sites@.len(),
    ensures
        runways@ == placed(sites@, heights@),
{
    let mut runways: Vec<RunwayInstance> = Vec::new();
    let mut i: usize = 0;
    while i < sites.len()
        invariant
            i <= sites.len(),
            heights@.len() == sites@.len(),
            runways@ == placed(sites@.take(i as int), heights@),
        decreases sites.len() - i,
    {
        assert(sites@.take(i + 1).drop_last() =~= sites@.take(i as int));
        match runway_for_cell(&sites[i], heights[i]) {
            Some(r) => {
                runways.push(r);
            },
            None => {},
        }
        i = i + 1;
    }
    assert(sites@.take(sites@.len() as int) =~= sites@);
    runways
}

/// The strongest weight over the runways, and the elevation of the first runway
/// that has it; `(0, 0)` where no runway reaches. `points` gives the point in
/// each runway's own frame.
pub open spec fn strongest(runways: Seq<RunwayInstance>, points: Seq<(i64, i64)>) -> (int, int)
    decreases runways.len(),
{
    if runways.len() == 0 {
        (0, 0)
    } else {
        let before = strongest(runways.drop_last(), points);
        let p = points[runways.len() - 1];
        let w = level_weight(p.0 as int, p.1 as int);
        if w > before.0 {
            (w, runways.last().elevation as int)
        } else {
            before
        }
    }
}

/// The ground at a point, blended toward the strongest runway's elevation.
pub open spec fn flattened(
    runways: Seq<RunwayInstance>,
    points: Seq<(i64, i64)>,
    natural: int,
) -> int {
    let best = strongest(runways, points);
    natural + scaled(best.1 - natural, best.0)
}

/// Blends `natural` height toward the nearest runway's elevation using the
/// rectangle weight. The strongest (nearest) runway wins where they overlap.
pub fn flatten_against(
    runways: &Vec<RunwayInstance>,
    points: &Vec<(i64, i64)>,
    natural: i64,
) -> (height: i64)
    requires
        points@.len() == runways@.len(),
    ensures
        height == flattened(runways@, points@, natural as int),
{
    let mut best_w: i64 = 0;
    let mut best_e: i64 = 0;
    let mut i: usize = 0;
    while i < runways.len()
        invariant
            i <= runways.len(),
            points@.len() == runways@.len(),
            0 <= best_w <= ONE,
            (best_w as int, best_e as int) == strongest(runways@.take(i as int), points@),
        decreases runways.len() - i,
    {
        assert(runways@.take(i + 1).drop_last() =~= runways@.take(i as int));
        let w: i64 = flatten_weight(points[i].0, points[i].1);
        if w > best_w {
            best_w = w;
            best_e = runways[i].elevation;
        }
        i = i + 1;
    }
    assert(runways@.take(runways@.len() as int) =~= runways@);
    blend(natural, best_e, best_w)
}

/// On a runway's levelled rectangle the ground is level with that runway, unless
/// another runway levels the point too and comes first.
pub proof fn levelled_ground_is_flat(
    runways: Seq<RunwayInstance>,
    points: Seq<(i64, i64)>,
    natural: int,
    n: int,
)
    requires
        points.len() == runways.len(),
        0 <= n < runways.len(),
        level_weight(points[n].0 as int, points[n].1 as int) == ONE,
        forall|i: int|
            0 <= i < n ==> level_weight(
                (#[trigger] points[i]).0 as int,
                points[i].1 as int,
            ) < ONE,
    ensures
        flattened(runways, points, natural) == runways[n].elevation,
{
    lemma_strongest(runways, points, n);
    let d = runways[n].elevation - natural;
    assert(scaled(d, ONE as int) == d);
}

proof fn lemma_strongest(runways: Seq<RunwayInstance>, points: Seq<(i64, i64)>, n: int)
    requires
        points.len() >= runways.len(),
        0 <= n,
        n < runways.len() ==> level_weight(points[n].0 as int, points[n].1 as int) == ONE,
        forall|i: int|
            0 <= i < n && i < runways.len() ==> level_weight(
                (#[trigger] points[i]).0 as int,
                points[i].1 as int,
            ) < ONE,
    ensures
        n < runways.len() ==> strongest(runways, points) == (
            ONE as int,
            runways[n].elevation as int,
        ),
        n >= runways.len() ==> 0 <= strongest(runways, points).0 < ONE,
        0 <= strongest(runways, points).0 <= ONE,
    decreases runways.len(),
{
    if runways.len() > 0 {
        let m = runways.len() - 1;
        lemma_strongest(runways.drop_last(), points, n);
        let t = clamped(apron_distance(points[m].0 as int, points[m].1 as int) / 600, 0, ONE as int);
        falloff_is_a_fraction(t);
    }
}

/// The ground raised to the asphalt of each runway whose pavement the point is on.
pub open spec fn raised(
    runways: Seq<RunwayInstance>,
    points: Seq<(i64, i64)>,
    ground: int,
) -> int
    decreases runways.len(),
{
    if runways.len() == 0 {
        ground
    } else {
        let before = raised(runways.drop_last(), points, ground);
        let p = points[runways.len() - 1];
        let top = runways.last().elevation + RUNWAY_SURFACE_LIFT;
        if paved(p.0 as int, p.1 as int) && top > before {
            top
        } else {
            before
        }
    }
}

/// The walkable ground height the landing gear should rest on at a point: the
/// flattened terrain, raised to the asphalt surface where the point is over
/// pavement.
pub fn ground_height(
    runways: &Vec<RunwayInstance>,
    points: &Vec<(i64, i64)>,
    natural: i64,
) -> (ground: i64)
    requires
        points@.len() == runways@.len(),
        forall|i: int|
            0 <= i < runways@.len() ==> (#[trigger] runways@[i]).elevation <= i64::MAX
                - RUNWAY_SURFACE_LIFT,
    ensures
        ground == raised(runways@, points@, flattened(runways@, points@, natural as int)),
{
    let flat: i64 = flatten_against(runways, points, natural);
    let mut ground: i64 = flat;
    let mut i: usize = 0;
    while i < runways.len()
        invariant
            i <= runways.len(),
            points@.len() == runways@.len(),
            forall|i: int|
                0 <= i < runways@.len() ==> (#[trigger] runways@[i]).elevation <= i64::MAX
                    - RUNWAY_SURFACE_LIFT,
            ground == raised(runways@.take(i as int), points@, flat as int),
        decreases runways.len() - i,
    {
        assert(runways@.take(i + 1).drop_last() =~= runways@.take(i as int));
        if on_pavement(points[i].0, points[i].1) {
            let top: i64 = runways[i].elevation + RUNWAY_SURFACE_LIFT;
            if top > ground {
                ground = top;
            }
        }
        i = i + 1;
    }
    assert(runways@.take(runways@.len() as int) =~= runways@);
    ground
}

/// Over pavement the ground is never below the asphalt, and it is never below
/// the flattened terrain.
pub proof fn wheels_rest_on_the_asphalt(
    runways: Seq<RunwayInstance>,
    points: Seq<(i64, i64)>,
    ground: int,
)
    requires
        points.len() >= runways.len(),
    ensures
        raised(runways, points, ground) >= ground,
        forall|i: int|
            0 <= i < runways.len() && paved(
                (#[trigger] points[i]).0 as int,
                points[i].1 as int,
            ) ==> raised(runways, points, ground) >= runways[i].elevation + RUNWAY_SURFACE_LIFT,
    decreases runways.len(),
{
    if runways.len() > 0 {
        wheels_rest_on_the_asphalt(runways.drop_last(), points, ground);
        assert forall|i: int|
            0 <= i < runways.len() && paved(
                (#[trigger] points[i]).0 as int,
                points[i].1 as int,
            ) implies raised(runways, points, ground) >= runways[i].elevation
            + RUNWAY_SURFACE_LIFT by {
            if i < runways.len() - 1 {
                assert(runways.drop_last()[i] == runways[i]);
            }
        }
    }
}

/// Grid cells whose runway is currently spawned (visually).
pub struct SpawnedRunways {
    pub cells: HashSet<(i32, i32)>,
}

impl SpawnedRunways {
    /// The cells whose runway is spawned.
    pub open spec fn spawned(self) -> Set<(i32, i32)> {
        members(self.cells)
    }
}

impl Default for SpawnedRunways {
    fn default() -> (spawned: Self)
        ensures
            spawned.spawned() == Set::<(i32, i32)>::empty(),
    {
        SpawnedRunways { cells: no_cells() }
    }
}

/// A spawned runway entity with its grid cell and position, so that it can be
/// dropped by actual distance when it leaves range.
#[derive(Clone, Copy, Debug, PartialEq, Eq)]
pub struct RunwaySlab {
    pub entity: u64,
    pub cell: (i32, i32),
    pub x: i64,
    pub z: i64,
}

/// What a streaming frame does: runways to spawn and entities to drop.
#[derive(Debug)]
pub struct RunwayPlan {
    pub spawn: Vec<RunwayInstance>,
    pub despawn: Vec<u64>,
}

/// Squared distance between two points of the ground plane.
pub open spec fn ground_distance_sq(x: int, z: int, camera: (i64, i64)) -> int {
    (x - camera.0) * (x - camera.0) + (z - camera.1) * (z - camera.1)
}

/// Within this range of the camera strips are spawned: the terrain's edge.
pub open spec fn keep_range(render_distance: int) -> int {
    render_distance * 500_000_000_000
}

/// Beyond this range strips are dropped: 15 % farther out.
pub open spec fn drop_range(render_distance: int) -> int {
    render_distance * 575_000_000_000
}

/// Cells to look at in each direction: the drop range in grid spacings, rounded
/// up, and one more.
pub open spec fn cell_radius(render_distance: int) -> int {
    -((-drop_range(render_distance)) / (RUNWAY_SPACING as int)) + 1
}

pub open spec fn render_distance_in_reach(render_distance: int) -> bool {
    -MAX_RENDER_DISTANCE <= render_distance <= MAX_RENDER_DISTANCE
}

/// The cell is near enough to the camera to be looked at.
pub open spec fn near_camera(cell: (i32, i32), camera: (i64, i64), render_distance: int) -> bool {
    let r = cell_radius(render_distance);
    &&& nearest_cell(camera.0 as int) - r <= cell.0 <= nearest_cell(camera.0 as int) + r
    &&& nearest_cell(camera.1 as int) - r <= cell.1 <= nearest_cell(camera.1 as int) + r
}

fn plane_distance_sq(x: i64, z: i64, camera: (i64, i64)) -> (d: i128)
    requires
        coord_in_reach(x as int),
        coord_in_reach(z as int),
        coord_in_world(camera.0 as int),
        coord_in_world(camera.1 as int),
    ensures
        d == ground_distance_sq(x as int, z as int, camera),
{
    let dx: i128 = x as i128 - camera.0 as i128;
    let dz: i128 = z as i128 - camera.1 as i128;
    assert(0 <= dx * dx <= 8_000_000_000_000_000_000 * 8_000_000_000_000_000_000)
        by (nonlinear_arith)
        requires
            -8_000_000_000_000_000_000 <= dx <= 8_000_000_000_000_000_000,
    ;
    assert(0 <= dz * dz <= 8_000_000_000_000_000_000 * 8_000_000_000_000_000_000)
        by (nonlinear_arith)
        requires
            -8_000_000_000_000_000_000 <= dz <= 8_000_000_000_000_000_000,
    ;
    dx * dx + dz * dz
}

fn squared(v: i64) -> (r: i128)
    requires
        -60_000_000_000_000_000 <= v <= 60_000_000_000_000_000,
    ensures
        r == v * v,
{
    let w: i128 = v as i128;
    assert(0 <= w * w <= 60_000_000_000_000_000 * 60_000_000_000_000_000) by (nonlinear_arith)
        requires
            -60_000_000_000_000_000 <= w <= 60_000_000_000_000_000,
    ;
    w * w
}

/// The sites around the camera whose runway is not spawned yet.
pub fn missing_sites(
    spawned: &SpawnedRunways,
    camera: (i64, i64),
    render_distance: i32,
    seed: u32,
) -> (sites: Vec<RunwaySite>)
    requires
        coord_in_world(camera.0 as int),
        coord_in_world(camera.1 as int),
        render_distance_in_reach(render_distance as int),
    ensures
        sites_in_reach(sites@),
        unspawned_sites(sites@, spawned.spawned()),
        exists|cells: Seq<(i32, i32)>| #[trigger]
            sites_of(sites@, seed, cells) && lists_cells(
                cells,
                |c: (i32, i32)|
                    near_camera(c, camera, render_distance as int) && !spawned.spawned().contains(
                        c,
                    ),
            ),
{
    let r: i32 = (1 - floor_div(-(render_distance as i128 * 575_000_000_000), 5_000_000_000_000))
        as i32;
    let cx: i32 = round_to_cell(camera.0);
    let cz: i32 = round_to_cell(camera.1);
    let lo: (i32, i32) = (cx - r, cz - r);
    let hi: (i32, i32) = (cx + r, cz + r);
    let cells: Vec<(i32, i32)> = missing_cells(lo, hi, &spawned.cells);
    let ghost wanted = |c: (i32, i32)|
        in_rectangle(c, lo, hi) && !members(spawned.cells).contains(c);
    let ghost near = |c: (i32, i32)|
        near_camera(c, camera, render_distance as int) && !spawned.spawned().contains(c);
    assert forall|i: int| 0 <= i < cells@.len() implies cell_in_world(#[trigger] cells@[i]) by {
        assert(cells@.contains(cells@[i]));
        assert(wanted(cells@[i]));
    }
    assert(lists_cells(cells@, near)) by {
        assert forall|c: (i32, i32)| #[trigger] cells@.contains(c) <==> near(c) by {
            assert(cells@.contains(c) <==> wanted(c));
        }
    }
    let sites: Vec<RunwaySite> = sites_for(seed, &cells);
    proof {
        assert forall|i: int| 0 <= i < sites@.len() implies !spawned.spawned().contains(
            (#[trigger] sites@[i]).cell,
        ) by {
            assert(sites@[i].cell == cells@[i]);
            assert(cells@.contains(cells@[i]));
        }
        assert forall|i: int, j: int| 0 <= i < j < sites@.len() implies (#[trigger] sites@[i]).cell
            != (#[trigger] sites@[j]).cell by {
            assert(sites@[i].cell == cells@[i] && sites@[j].cell == cells@[j]);
            assert(scanned_before(cells@[i], cells@[j]));
        }
    }
    sites
}

/// Positions of all sites can be measured from the camera.
pub open spec fn sites_in_reach(sites: Seq<RunwaySite>) -> bool {
    forall|i: int|
        0 <= i < sites.len() ==> coord_in_reach((#[trigger] sites[i]).x as int) && coord_in_reach(
            sites[i].z as int,
        )
}

/// The sites belong to different cells, none of them spawned.
pub open spec fn unspawned_sites(sites: Seq<RunwaySite>, spawned: Set<(i32, i32)>) -> bool {
    &&& forall|i: int| 0 <= i < sites.len() ==> !spawned.contains((#[trigger] sites[i]).cell)
    &&& forall|i: int, j: int|
        0 <= i < j < sites.len() ==> (#[trigger] sites[i]).cell != (#[trigger] sites[j]).cell
}

/// The runway lies within the keep range of the camera.
pub open spec fn kept(x: int, z: int, camera: (i64, i64), render_distance: int) -> bool {
    ground_distance_sq(x, z, camera) <= keep_range(render_distance) * keep_range(render_distance)
}

/// The runway lies beyond the drop range of the camera.
pub open spec fn dropped(x: int, z: int, camera: (i64, i64), render_distance: int) -> bool {
    ground_distance_sq(x, z, camera) > drop_range(render_distance) * drop_range(render_distance)
}

/// The runways to spawn: those placed at the sites that lie in range, in order.
pub open spec fn in_range(
    sites: Seq<RunwaySite>,
    heights: Seq<i64>,
    camera: (i64, i64),
    render_distance: int,
) -> Seq<RunwayInstance>
    decreases sites.len(),
{
    if sites.len() == 0 {
        Seq::empty()
    } else {
        let before = in_range(sites.drop_last(), heights, camera, render_distance);
        match placed_at(sites.last(), heights[sites.len() - 1]) {
            Some(r) => if kept(r.x as int, r.z as int, camera, render_distance) {
                before.push(r)
            } else {
                before
            },
            None => before,
        }
    }
}

/// The entities to drop: those of the slabs beyond the drop range, in order.
pub open spec fn beyond_range(
    slabs: Seq<RunwaySlab>,
    camera: (i64, i64),
    render_distance: int,
) -> Seq<u64>
    decreases slabs.len(),
{
    if slabs.len() == 0 {
        Seq::empty()
    } else {
        let before = beyond_range(slabs.drop_last(), camera, render_distance);
        let slab = slabs.last();
        if dropped(slab.x as int, slab.z as int, camera, render_distance) {
            before.push(slab.entity)
        } else {
            before
        }
    }
}

/// Cells after spawning `runways`.
pub open spec fn with_runways(cells: Set<(i32, i32)>, runways: Seq<RunwayInstance>) -> Set<
    (i32, i32),
>
    decreases runways.len(),
{
    if runways.len() == 0 {
        cells
    } else {
        with_runways(cells, runways.drop_last()).insert(runways.last().cell)
    }
}

/// Cells after dropping the slabs beyond range.
pub open spec fn without_slabs(
    cells: Set<(i32, i32)>,
    slabs: Seq<RunwaySlab>,
    camera: (i64, i64),
    render_distance: int,
) -> Set<(i32, i32)>
    decreases slabs.len(),
{
    if slabs.len() == 0 {
        cells
    } else {
        let before = without_slabs(cells, slabs.drop_last(), camera, render_distance);
        let slab = slabs.last();
        if dropped(slab.x as int, slab.z as int, camera, render_distance) {
            before.remove(slab.cell)
        } else {
            before
        }
    }
}

/// Spawns runways near the camera and drops ones that fall out of range, so only
/// a handful exist at once regardless of how far one flies. The streamed radius
/// tracks the terrain's view radius so strips do not appear beyond the terrain
/// edge. When the world was rebuilt (`changed`) every strip goes, so that the new
/// layout repopulates next frame. `sites` are those of [`missing_sites`], and
/// `heights` the natural ground at each.
pub fn stream_runways(
    spawned: &mut SpawnedRunways,
    changed: bool,
    camera: Option<(i64, i64)>,
    render_distance: i32,
    sites: &Vec<RunwaySite>,
    heights: &Vec<i64>,
    existing: &Vec<RunwaySlab>,
) -> (plan: RunwayPlan)
    requires
        heights@.len() == sites@.len(),
        sites_in_reach(sites@),
        unspawned_sites(sites@, old(spawned).spawned()),
        forall|i: int|
            0 <= i < existing@.len() ==> coord_in_reach((#[trigger] existing@[i]).x as int)
                && coord_in_reach(existing@[i].z as int),
        camera matches Some(c) ==> coord_in_world(c.0 as int) && coord_in_world(c.1 as int),
        render_distance_in_reach(render_distance as int),
    ensures
        if changed {
            &&& plan.spawn@.len() == 0
            &&& plan.despawn@ == existing@.map_values(|s: RunwaySlab| s.entity)
            &&& final(spawned).spawned() == Set::<(i32, i32)>::empty()
        } else {
            match camera {
                None => {
                    &&& plan.spawn@.len() == 0
                    &&& plan.despawn@.len() == 0
                    &&& *final(spawned) == *old(spawned)
                },
                Some(c) => {
                    let rd = render_distance as int;
                    &&& plan.spawn@ == in_range(sites@, heights@, c, rd)
                    &&& plan.despawn@ == beyond_range(existing@, c, rd)
                    &&& final(spawned).spawned() == without_slabs(
                        with_runways(old(spawned).spawned(), plan.spawn@),
                        existing@,
                        c,
                        rd,
                    )
                },
            }
        },
{
    let mut spawn: Vec<RunwayInstance> = Vec::new();
    let mut despawn: Vec<u64> = Vec::new();
    if changed {
        let mut i: usize = 0;
        while i < existing.len()
            invariant
                i <= existing.len(),
                despawn.len() == i,
                forall|n: int| 0 <= n < i ==> #[trigger] despawn@[n] == existing@[n].entity,
            decreases existing.len() - i,
        {
            despawn.push(existing[i].entity);
            i = i + 1;
        }
        assert(despawn@ =~= existing@.map_values(|s: RunwaySlab| s.entity));
        clear(&mut spawned.cells);
        return RunwayPlan { spawn, despawn };
    }
    let cam: (i64, i64) = match camera {
        Some(c) => c,
        None => {
            return RunwayPlan { spawn, despawn };
        },
    };
    let ghost rd = render_distance as int;
    let keep_sq: i128 = squared(render_distance as i64 * 500_000_000_000);
    let drop_sq: i128 = squared(render_distance as i64 * 575_000_000_000);
    let mut i: usize = 0;
    while i < sites.len()
        invariant
            i <= sites.len(),
            rd == render_distance,
            heights@.len() == sites@.len(),
            sites_in_reach(sites@),
            coord_in_world(cam.0 as int),
            coord_in_world(cam.1 as int),
            keep_sq == keep_range(rd) * keep_range(rd),
            spawn@ == in_range(sites@.take(i as int), heights@, cam, rd),
            spawned.spawned() == with_runways(old(spawned).spawned(), spawn@),
        decreases sites.len() - i,
    {
        assert(sites@.take(i + 1).drop_last() =~= sites@.take(i as int));
        match runway_for_cell(&sites[i], heights[i]) {
            Some(r) => {
                if plane_distance_sq(r.x, r.z, cam) <= keep_sq {
                    let ghost before = spawn@;
                    insert(&mut spawned.cells, r.cell);
                    spawn.push(r);
                    assert(spawn@.drop_last() =~= before);
                }
            },
            None => {},
        }
        i = i + 1;
    }
    assert(sites@.take(sites@.len() as int) =~= sites@);
    let ghost grown = with_runways(old(spawned).spawned(), spawn@);
    let mut k: usize = 0;
    while k < existing.len()
        invariant
            k <= existing.len(),
            rd == render_distance,
            forall|i: int|
                0 <= i < existing@.len() ==> coord_in_reach((#[trigger] existing@[i]).x as int)
                    && coord_in_reach(existing@[i].z as int),
            coord_in_world(cam.0 as int),
            coord_in_world(cam.1 as int),
            drop_sq == drop_range(rd) * drop_range(rd),
            despawn@ == beyond_range(existing@.take(k as int), cam, rd),
            spawned.spawned() == without_slabs(grown, existing@.take(k as int), cam, rd),
        decreases existing.len() - k,
    {
        assert(existing@.take(k + 1).drop_last() =~= existing@.take(k as int));
        let slab: RunwaySlab = existing[k];
        if plane_distance_sq(slab.x, slab.z, cam) > drop_sq {
            despawn.push(slab.entity);
            remove(&mut spawned.cells, slab.cell);
        }
        k = k + 1;
    }
    assert(existing@.take(existing@.len() as int) =~= existing@);
    RunwayPlan { spawn, despawn }
}

/// A strip near enough to be spawned is never dropped, so one at the boundary
/// does not flicker.
pub proof fn strips_in_range_are_kept(x: int, z: int, camera: (i64, i64), render_distance: int)
    requires
        kept(x, z, camera, render_distance),
    ensures
        !dropped(x, z, camera, render_distance),
{
    let a = keep_range(render_distance);
    let b = drop_range(render_distance);
    let rd = render_distance;
    assert(a * a <= b * b) by (nonlinear_arith)
        requires
            a == rd * 500_000_000_000,
            b == rd * 575_000_000_000,
    {
        assert(rd * rd >= 0);
        assert(a * a == (rd * rd) * (500_000_000_000 * 500_000_000_000));
        assert(b * b == (rd * rd) * (575_000_000_000 * 575_000_000_000));
    }
}

/// Every spawned strip lies in range and on dry ground, or is the spawn point's.
pub proof fn spawned_strips_are_near_and_dry(
    sites: Seq<RunwaySite>,
    heights: Seq<i64>,
    camera: (i64, i64),
    render_distance: int,
)
    requires
        heights.len() >= sites.len(),
    ensures
        forall|i: int|
            0 <= i < in_range(sites, heights, camera, render_distance).len() ==> {
                let r = #[trigger] in_range(sites, heights, camera, render_distance)[i];
                &&& kept(r.x as int, r.z as int, camera, render_distance)
                &&& r.elevation >= RUNWAY_MIN_ABOVE_WATER || r.cell == (0i32, 0i32)
            },
    decreases sites.len(),
{
    if sites.len() > 0 {
        spawned_strips_are_near_and_dry(sites.drop_last(), heights, camera, render_distance);
        let before = in_range(sites.drop_last(), heights, camera, render_distance);
        let now = in_range(sites, heights, camera, render_distance);
        assert forall|i: int| 0 <= i < now.len() implies {
            let r = #[trigger] now[i];
            &&& kept(r.x as int, r.z as int, camera, render_distance)
            &&& r.elevation >= RUNWAY_MIN_ABOVE_WATER || r.cell == (0i32, 0i32)
        } by {
            if i < before.len() {
                assert(now[i] == before[i]);
            }
        }
    }
}

}
