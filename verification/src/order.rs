//! A stable ascending sort, given as the order in which to visit the items.

use vstd::prelude::*;

verus! {

/// Item `a` comes before item `b`: by key, and among equal keys by position.
pub open spec fn precedes(keys: Seq<i128>, a: int, b: int) -> bool {
    keys[a] < keys[b] || (keys[a] == keys[b] && a < b)
}

/// `run` lists each position of `lo..hi` once, ascending by key and, among
/// equal keys, by position.
pub open spec fn ascending_run(keys: Seq<i128>, run: Seq<usize>, lo: int, hi: int) -> bool {
    &&& run.len() == hi - lo
    &&& forall|i: int| 0 <= i < run.len() ==> lo <= #[trigger] run[i] < hi
    &&& forall|i: int, j: int|
        0 <= i < j < run.len() ==> precedes(keys, #[trigger] run[i] as int, #[trigger] run[j] as int)
    &&& forall|k: usize| lo <= k < hi ==> #[trigger] run.contains(k)
}

/// `order` is the stable ascending order of all of `keys`.
pub open spec fn stable_order(keys: Seq<i128>, order: Seq<usize>) -> bool {
    ascending_run(keys, order, 0, keys.len() as int)
}

/// Two runs of the same positions are the same run: the order is unique.
pub proof fn stable_order_is_unique(keys: Seq<i128>, a: Seq<usize>, b: Seq<usize>)
    requires
        stable_order(keys, a),
        stable_order(keys, b),
    ensures
        a == b,
{
    assert forall|n: int| 0 <= n < a.len() implies a[n] == b[n] by {
        lemma_same_prefix(keys, a, b, n + 1);
    }
    assert(a =~= b);
}

proof fn lemma_same_prefix(keys: Seq<i128>, a: Seq<usize>, b: Seq<usize>, n: int)
    requires
        stable_order(keys, a),
        stable_order(keys, b),
        0 <= n <= a.len(),
    ensures
        forall|i: int| 0 <= i < n ==> a[i] == b[i],
    decreases n,
{
    if n > 0 {
        lemma_same_prefix(keys, a, b, n - 1);
        let m = n - 1;
        assert(b.contains(a[m]) && a.contains(b[m]));
        let p = choose|p: int| 0 <= p < b.len() && #[trigger] b[p] == a[m];
        let q = choose|q: int| 0 <= q < a.len() && #[trigger] a[q] == b[m];
        if p < m {
            assert(a[p] == b[p]);
            assert(precedes(keys, a[p] as int, a[m] as int));
        }
        if q < m {
            assert(a[q] == b[q]);
            assert(precedes(keys, b[q] as int, b[m] as int));
        }
        if p > m && q > m {
            assert(precedes(keys, b[m] as int, b[p] as int));
            assert(precedes(keys, a[m] as int, a[q] as int));
        }
        assert(a[m] == b[m]);
    }
}

fn merge(keys: &Vec<i128>, a: Vec<usize>, b: Vec<usize>, lo: usize, mid: usize, hi: usize) -> (r: Vec<
    usize,
>)
    requires
        lo <= mid <= hi <= keys.len(),
        ascending_run(keys@, a@, lo as int, mid as int),
        ascending_run(keys@, b@, mid as int, hi as int),
    ensures
        ascending_run(keys@, r@, lo as int, hi as int),
{
    let mut r: Vec<usize> = Vec::with_capacity(hi - lo);
    let mut i: usize = 0;
    let mut j: usize = 0;
    while i < a.len() || j < b.len()
        invariant
            i <= a.len(),
            j <= b.len(),
            lo <= mid <= hi <= keys.len(),
            ascending_run(keys@, a@, lo as int, mid as int),
            ascending_run(keys@, b@, mid as int, hi as int),
            r.len() == i + j,
            forall|n: int| 0 <= n < r.len() ==> lo <= #[trigger] r[n] < hi,
            forall|m: int, n: int|
                0 <= m < n < r.len() ==> precedes(
                    keys@,
                    #[trigger] r[m] as int,
                    #[trigger] r[n] as int,
                ),
            forall|n: int, x: int|
                0 <= n < r.len() && i <= x < a.len() ==> precedes(
                    keys@,
                    #[trigger] r[n] as int,
                    #[trigger] a[x] as int,
                ),
            forall|n: int, x: int|
                0 <= n < r.len() && j <= x < b.len() ==> precedes(
                    keys@,
                    #[trigger] r[n] as int,
                    #[trigger] b[x] as int,
                ),
            forall|x: int| 0 <= x < i ==> r@.contains(#[trigger] a[x]),
            forall|x: int| 0 <= x < j ==> r@.contains(#[trigger] b[x]),
        decreases a.len() - i + b.len() - j,
    {
        let ghost before = r@;
        let take_a: bool = if i < a.len() {
            if j < b.len() {
                keys[a[i]] <= keys[b[j]]
            } else {
                true
            }
        } else {
            false
        };
        if take_a {
            r.push(a[i]);
            i = i + 1;
        } else {
            r.push(b[j]);
            j = j + 1;
        }
        proof {
            assert(r@[before.len() as int] == r@.last());
            assert forall|x: usize| before.contains(x) implies r@.contains(x) by {
                let n = choose|n: int| 0 <= n < before.len() && before[n] == x;
                assert(r@[n] == x);
            }
        }
    }
    proof {
        assert forall|k: usize| lo <= k < hi implies #[trigger] r@.contains(k) by {
            if k < mid {
                assert(a@.contains(k));
                let x = choose|x: int| 0 <= x < a.len() && #[trigger] a[x] == k;
                assert(r@.contains(a[x]));
            } else {
                assert(b@.contains(k));
                let x = choose|x: int| 0 <= x < b.len() && #[trigger] b[x] == k;
                assert(r@.contains(b[x]));
            }
        }
    }
    r
}

fn sort_run(keys: &Vec<i128>, lo: usize, hi: usize) -> (r: Vec<usize>)
    requires
        lo <= hi <= keys.len(),
    ensures
        ascending_run(keys@, r@, lo as int, hi as int),
    decreases hi - lo,
{
    if lo == hi {
        Vec::new()
    } else if hi - lo == 1 {
        let mut r: Vec<usize> = Vec::new();
        r.push(lo);
        assert(r[0] == lo);
        r
    } else {
        let mid: usize = lo + (hi - lo) / 2;
        let a: Vec<usize> = sort_run(keys, lo, mid);
        let b: Vec<usize> = sort_run(keys, mid, hi);
        merge(keys, a, b, lo, mid, hi)
    }
}

/// The positions of `keys` in stable ascending order.
pub fn sorted_order(keys: &Vec<i128>) -> (order: Vec<usize>)
    ensures
        stable_order(keys@, order@),
{
    sort_run(keys, 0, keys.len())
}

/// Along the order keys never fall, equal keys keep their positions' order, and every
/// position is visited once.
pub proof fn order_ascends(keys: Seq<i128>, order: Seq<usize>, i: int, j: int)
    requires
        stable_order(keys, order),
        0 <= i < j < order.len(),
    ensures
        order.len() == keys.len(),
        keys[order[i] as int] <= keys[order[j] as int],
        keys[order[i] as int] == keys[order[j] as int] ==> order[i] < order[j],
        order[i] != order[j],
{
    assert(precedes(keys, order[i] as int, order[j] as int));
}

}
