//! Colours of the terrain mesh. Colours are red, green, blue and alpha, linear,
//! with nine decimals.

use crate::fixed::{floor_div, ONE};
use vstd::prelude::*;

verus! {

/// A colour component that blends can be made of.
pub open spec fn is_component(v: int) -> bool {
    -1_000_000_000_000 <= v <= 1_000_000_000_000
}

/// Every component of the colour can be blended.
pub open spec fn is_colour(c: [i64; 4]) -> bool {
    forall|k: int| 0 <= k < 4 ==> is_component(#[trigger] c@[k] as int)
}

/// A component blended from those of the four biomes by their weights.
pub open spec fn blended(w: Seq<i64>, a: int, b: int, c: int, d: int) -> int {
    (w[0] * a + w[1] * b + w[2] * c + w[3] * d) / (ONE as int)
}

fn blend_component(w: &[i64; 4], a: i64, b: i64, c: i64, d: i64) -> (r: i64)
    requires
        forall|i: int| 0 <= i < 4 ==> 0 <= #[trigger] w@[i] <= ONE,
        is_component(a as int),
        is_component(b as int),
        is_component(c as int),
        is_component(d as int),
    ensures
        r == blended(w@, a as int, b as int, c as int, d as int),
{
    proof {
        lemma_weighted(w@[0] as int, a as int);
        lemma_weighted(w@[1] as int, b as int);
        lemma_weighted(w@[2] as int, c as int);
        lemma_weighted(w@[3] as int, d as int);
    }
    let sum: i128 = w[0] as i128 * a as i128 + w[1] as i128 * b as i128 + w[2] as i128 * c as i128
        + w[3] as i128 * d as i128;
    floor_div(sum, 1_000_000_000) as i64
}

proof fn lemma_weighted(w: int, v: int)
    requires
        0 <= w <= 1_000_000_000,
        is_component(v),
    ensures
        -1_000_000_000_000_000_000_000 <= w * v <= 1_000_000_000_000_000_000_000,
{
    assert(-1_000_000_000_000_000_000_000 <= w * v <= 1_000_000_000_000_000_000_000)
        by (nonlinear_arith)
        requires
            0 <= w <= 1_000_000_000,
            -1_000_000_000_000 <= v <= 1_000_000_000_000,
    ;
}

/// The surface colour: the colours of grassland, taiga, desert and forest at this
/// height, blended by the biomes' weights.
pub fn terrain_color(
    w: &[i64; 4],
    grass: &[i64; 4],
    taiga: &[i64; 4],
    desert: &[i64; 4],
    forest: &[i64; 4],
) -> (colour: [i64; 4])
    requires
        forall|i: int| 0 <= i < 4 ==> 0 <= #[trigger] w@[i] <= ONE,
        is_colour(*grass),
        is_colour(*taiga),
        is_colour(*desert),
        is_colour(*forest),
    ensures
        forall|k: int|
            0 <= k < 4 ==> #[trigger] colour@[k] == blended(
                w@,
                grass@[k] as int,
                taiga@[k] as int,
                desert@[k] as int,
                forest@[k] as int,
            ),
{
    [
        blend_component(w, grass[0], taiga[0], desert[0], forest[0]),
        blend_component(w, grass[1], taiga[1], desert[1], forest[1]),
        blend_component(w, grass[2], taiga[2], desert[2], forest[2]),
        blend_component(w, grass[3], taiga[3], desert[3], forest[3]),
    ]
}

/// Where all biomes have the same colour, the blend is that colour, whatever the
/// weights, as long as they sum to one.
pub proof fn equal_colours_stay(w: Seq<i64>, v: int)
    requires
        w.len() == 4,
        w[0] + w[1] + w[2] + w[3] == ONE,
    ensures
        blended(w, v, v, v, v) == v,
{
    let (a, b, c, d) = (w[0] as int, w[1] as int, w[2] as int, w[3] as int);
    assert(a * v + b * v + c * v + d * v == (a + b + c + d) * v) by (nonlinear_arith);
    vstd::arithmetic::div_mod::lemma_div_multiples_vanish(v, ONE as int);
    assert(ONE * v == (a + b + c + d) * v);
}

/// The average of three components.
pub open spec fn average(a: int, b: int, c: int) -> int {
    (a + b + c) / 3
}

/// The colour of corner `i` after every whole triangle took the average of its
/// three corners.
pub open spec fn facet_component(colors: Seq<[i64; 4]>, i: int, k: int) -> int {
    let t = 3 * (i / 3);
    if t + 2 < colors.len() {
        average(colors[t]@[k] as int, colors[t + 1]@[k] as int, colors[t + 2]@[k] as int)
    } else {
        colors[i]@[k] as int
    }
}

fn third(a: i64, b: i64, c: i64) -> (r: i64)
    ensures
        r == average(a as int, b as int, c as int),
{
    floor_div(a as i128 + b as i128 + c as i128, 3) as i64
}

/// Collapses each triangle's three colours to their average, so that the whole
/// facet is one solid colour. The corners of a triangle follow one another; a
/// rest of fewer than three stays.
pub fn flatten_colours(colors: &mut Vec<[i64; 4]>)
    ensures
        final(colors)@.len() == old(colors)@.len(),
        forall|i: int, k: int|
            0 <= i < old(colors)@.len() && 0 <= k < 4 ==> (#[trigger] final(colors)@[i]@[k])
                == facet_component(old(colors)@, i, k),
{
    let ghost before = colors@;
    let n: usize = colors.len();
    let mut t: usize = 0;
    while n - t >= 3
        invariant
            t <= n,
            t % 3 == 0,
            n == colors.len(),
            before.len() == n,
            forall|i: int, k: int|
                0 <= i < t && 0 <= k < 4 ==> (#[trigger] colors@[i]@[k]) == facet_component(
                    before,
                    i,
                    k,
                ),
            forall|i: int| t <= i < n ==> #[trigger] colors@[i] == before[i],
        decreases n - t,
    {
        let a: [i64; 4] = colors[t];
        let b: [i64; 4] = colors[t + 1];
        let c: [i64; 4] = colors[t + 2];
        let avg: [i64; 4] = [
            third(a[0], b[0], c[0]),
            third(a[1], b[1], c[1]),
            third(a[2], b[2], c[2]),
            third(a[3], b[3], c[3]),
        ];
        colors.set(t, avg);
        colors.set(t + 1, avg);
        colors.set(t + 2, avg);
        proof {
            assert forall|i: int, k: int| 0 <= i < t + 3 && 0 <= k < 4 implies (
            #[trigger] colors@[i]@[k]) == facet_component(before, i, k) by {
                if i >= t {
                    assert(3 * (i / 3) == t);
                    assert(colors@[i] == avg);
                }
            }
        }
        t = t + 3;
    }
    proof {
        assert forall|i: int, k: int| 0 <= i < n && 0 <= k < 4 implies (#[trigger] colors@[i]@[k])
            == facet_component(before, i, k) by {
            if i >= t {
                assert(3 * (i / 3) >= t);
            }
        }
    }
}

/// The corners of a facet all have the same colour.
pub proof fn facets_are_flat(colors: Seq<[i64; 4]>, i: int, j: int, k: int)
    requires
        0 <= i,
        0 <= j,
        i / 3 == j / 3,
        3 * (i / 3) + 2 < colors.len(),
    ensures
        facet_component(colors, i, k) == facet_component(colors, j, k),
{
}

}
