//! Dirty-region extraction: the bounding rectangles of the 4-connected
//! components of the dirty map.

use vstd::prelude::*;
use crate::geometry::{Position, Region, Size};
use crate::text::{BUFFER_CELLS, BUFFER_HEIGHT, BUFFER_WIDTH, in_region, region_fits};

verus! {

pub open spec fn row_of(i: int) -> int {
    i / 80
}

pub open spec fn col_of(i: int) -> int {
    i % 80
}

/// Whether cells `i` and `j` of the grid share an edge.
pub open spec fn adjacent(i: int, j: int) -> bool {
    &&& 0 <= i < BUFFER_CELLS
    &&& 0 <= j < BUFFER_CELLS
    &&& {
        ||| row_of(i) == row_of(j) && (col_of(i) == col_of(j) + 1 || col_of(j) == col_of(i) + 1)
        ||| col_of(i) == col_of(j) && (row_of(i) == row_of(j) + 1 || row_of(j) == row_of(i) + 1)
    }
}

/// Whether a path of `n` steps between neighbouring dirty cells leads from
/// `a` to `b`.
pub open spec fn reach(dirty: Seq<bool>, a: int, b: int, n: nat) -> bool
    decreases n,
{
    if n == 0 {
        a == b && 0 <= a < BUFFER_CELLS && dirty[a]
    } else {
        0 <= a < BUFFER_CELLS && dirty[a] && exists|c: int| #[trigger] adjacent(a, c) && reach(dirty, c, b, (n - 1) as nat)
    }
}

#[verifier::opaque]
/// Whether every cell newly visited between `before` and `after` is reached
/// from `seed` through dirty cells.
pub open spec fn reached_from(dirty: Seq<bool>, before: Seq<bool>, after: Seq<bool>, seed: int) -> bool {
    forall|i: int| #[trigger] fresh(before, after, i) ==> exists|n: nat| reach(dirty, seed, i, n)
}

proof fn lemma_reach_step(dirty: Seq<bool>, a: int, w: int, b: int, n: nat)
    requires
        0 <= a < BUFFER_CELLS,
        dirty[a],
        adjacent(a, w),
        reach(dirty, w, b, n),
    ensures
        reach(dirty, a, b, n + 1),
{
    assert(reach(dirty, a, b, n + 1));
}

proof fn lemma_reached_chain(dirty: Seq<bool>, v0: Seq<bool>, va: Seq<bool>, vb: Seq<bool>, seed: int, w: int)
    requires
        v0.len() == BUFFER_CELLS,
        grows(v0, va),
        grows(va, vb),
        0 <= seed < BUFFER_CELLS,
        dirty[seed],
        adjacent(seed, w),
        reached_from(dirty, v0, va, seed),
        reached_from(dirty, va, vb, w),
    ensures
        reached_from(dirty, v0, vb, seed),
{
    reveal(reached_from);
    assert forall|i: int| #[trigger] fresh(v0, vb, i) implies exists|n: nat| reach(dirty, seed, i, n) by {
        if va[i] {
            assert(fresh(v0, va, i));
        } else {
            assert(fresh(va, vb, i));
            let n = choose|n: nat| reach(dirty, w, i, n);
            lemma_reach_step(dirty, seed, w, i, n);
        }
    }
}

/// The number of unvisited cells.
pub open spec fn unvisited(v: Seq<bool>) -> nat
    decreases v.len(),
{
    if v.len() == 0 {
        0
    } else {
        unvisited(v.drop_last()) + if v.last() { 0nat } else { 1nat }
    }
}

/// Whether `after` keeps every cell that `before` holds.
pub open spec fn grows(before: Seq<bool>, after: Seq<bool>) -> bool {
    &&& after.len() == before.len()
    &&& forall|i: int| 0 <= i < before.len() && before[i] ==> after[i]
}

/// Whether `i` was visited between `before` and `after`.
pub open spec fn fresh(before: Seq<bool>, after: Seq<bool>, i: int) -> bool {
    0 <= i < after.len() && after[i] && !before[i]
}

proof fn lemma_unvisited_shrinks(before: Seq<bool>, after: Seq<bool>)
    requires
        grows(before, after),
    ensures
        unvisited(after) <= unvisited(before),
        (exists|i: int| fresh(before, after, i)) ==> unvisited(after) < unvisited(before),
    decreases before.len(),
{
    if before.len() > 0 {
        let b = before.drop_last();
        let a = after.drop_last();
        assert(grows(b, a));
        lemma_unvisited_shrinks(b, a);
        if exists|i: int| fresh(before, after, i) {
            let i = choose|i: int| fresh(before, after, i);
            if i < before.len() - 1 {
                assert(fresh(b, a, i));
            }
        }
    }
}

/// Bounds of the cells visited so far: (min col, max col, min row, max row).
pub type Bounds = (usize, usize, usize, usize);

#[verifier::opaque]
/// Whether `b` covers every cell newly visited between `before` and `after`,
/// widens `b0`, and each of its edges is `b0`'s or touches a new cell.
pub open spec fn bounds_follow(before: Seq<bool>, after: Seq<bool>, b0: Bounds, b: Bounds) -> bool {
    &&& b.0 <= b0.0 && b.1 >= b0.1 && b.2 <= b0.2 && b.3 >= b0.3
    &&& forall|i: int| #[trigger] fresh(before, after, i) ==> b.0 <= col_of(i) <= b.1 && b.2 <= row_of(i) <= b.3
    &&& (b.0 == b0.0 || exists|i: int| #[trigger] fresh(before, after, i) && col_of(i) == b.0)
    &&& (b.1 == b0.1 || exists|i: int| #[trigger] fresh(before, after, i) && col_of(i) == b.1)
    &&& (b.2 == b0.2 || exists|i: int| #[trigger] fresh(before, after, i) && row_of(i) == b.2)
    &&& (b.3 == b0.3 || exists|i: int| #[trigger] fresh(before, after, i) && row_of(i) == b.3)
}

#[verifier::opaque]
/// Whether every cell newly visited between `before` and `after` has all
/// its dirty neighbours visited in `after`.
pub open spec fn closed_fresh(dirty: Seq<bool>, before: Seq<bool>, after: Seq<bool>) -> bool {
    forall|i: int, j: int| fresh(before, after, i) && #[trigger] adjacent(i, j) && dirty[j] ==> after[j]
}

proof fn lemma_bounds_chain(v0: Seq<bool>, v1: Seq<bool>, v2: Seq<bool>, b0: Bounds, b1: Bounds, b2: Bounds)
    requires
        grows(v0, v1),
        grows(v1, v2),
        bounds_follow(v0, v1, b0, b1),
        bounds_follow(v1, v2, b1, b2),
    ensures
        bounds_follow(v0, v2, b0, b2),
{
    reveal(bounds_follow);
    assert forall|i: int| #[trigger] fresh(v0, v2, i) implies b2.0 <= col_of(i) <= b2.1 && b2.2 <= row_of(i) <= b2.3 by {
        if v1[i] {
            assert(fresh(v0, v1, i));
        } else {
            assert(fresh(v1, v2, i));
        }
    }
    if b2.0 != b0.0 {
        if b2.0 == b1.0 {
            let i = choose|i: int| #[trigger] fresh(v0, v1, i) && col_of(i) == b1.0;
            assert(fresh(v0, v2, i));
        } else {
            let i = choose|i: int| #[trigger] fresh(v1, v2, i) && col_of(i) == b2.0;
            assert(fresh(v0, v2, i));
        }
    }
    if b2.1 != b0.1 {
        if b2.1 == b1.1 {
            let i = choose|i: int| #[trigger] fresh(v0, v1, i) && col_of(i) == b1.1;
            assert(fresh(v0, v2, i));
        } else {
            let i = choose|i: int| #[trigger] fresh(v1, v2, i) && col_of(i) == b2.1;
            assert(fresh(v0, v2, i));
        }
    }
    if b2.2 != b0.2 {
        if b2.2 == b1.2 {
            let i = choose|i: int| #[trigger] fresh(v0, v1, i) && row_of(i) == b1.2;
            assert(fresh(v0, v2, i));
        } else {
            let i = choose|i: int| #[trigger] fresh(v1, v2, i) && row_of(i) == b2.2;
            assert(fresh(v0, v2, i));
        }
    }
    if b2.3 != b0.3 {
        if b2.3 == b1.3 {
            let i = choose|i: int| #[trigger] fresh(v0, v1, i) && row_of(i) == b1.3;
            assert(fresh(v0, v2, i));
        } else {
            let i = choose|i: int| #[trigger] fresh(v1, v2, i) && row_of(i) == b2.3;
            assert(fresh(v0, v2, i));
        }
    }
}

proof fn lemma_closed_chain(dirty: Seq<bool>, v0: Seq<bool>, v1: Seq<bool>, v2: Seq<bool>)
    requires
        v0.len() == BUFFER_CELLS,
        grows(v0, v1),
        grows(v1, v2),
        closed_fresh(dirty, v0, v1),
        closed_fresh(dirty, v1, v2),
    ensures
        closed_fresh(dirty, v0, v2),
{
    reveal(closed_fresh);
    assert forall|i: int, j: int| fresh(v0, v2, i) && #[trigger] adjacent(i, j) && dirty[j] implies v2[j] by {
        if v1[i] {
            assert(fresh(v0, v1, i));
        } else {
            assert(fresh(v1, v2, i));
        }
    }
}

proof fn lemma_seed(dirty: Seq<bool>, v0: Seq<bool>, v1: Seq<bool>, b0: Bounds, b1: Bounds, index: int, x: int, y: int)
    requires
        v0.len() == BUFFER_CELLS,
        0 <= index < BUFFER_CELLS,
        row_of(index) == y,
        col_of(index) == x,
        !v0[index],
        v1 == v0.update(index, true),
        b1.0 == (if x < b0.0 { x } else { b0.0 as int }),
        b1.1 == (if x > b0.1 { x } else { b0.1 as int }),
        b1.2 == (if y < b0.2 { y } else { b0.2 as int }),
        b1.3 == (if y > b0.3 { y } else { b0.3 as int }),
    ensures
        grows(v0, v1),
        fresh(v0, v1, index),
        unvisited(v1) < unvisited(v0),
        bounds_follow(v0, v1, b0, b1),
        closed_fresh(dirty, v1, v1),
{
    reveal(bounds_follow);
    reveal(closed_fresh);
    assert(fresh(v0, v1, index));
    lemma_unvisited_shrinks(v0, v1);
    assert forall|i: int| #[trigger] fresh(v0, v1, i) implies i == index by {}
}

proof fn lemma_seed_closed(dirty: Seq<bool>, v0: Seq<bool>, v1: Seq<bool>, v2: Seq<bool>, v3: Seq<bool>, v4: Seq<bool>, vf: Seq<bool>, index: int)
    requires
        v0.len() == BUFFER_CELLS,
        0 <= index < BUFFER_CELLS,
        !v0[index],
        v1 == v0.update(index, true),
        grows(v1, v2),
        grows(v2, v3),
        grows(v3, v4),
        grows(v4, vf),
        closed_fresh(dirty, v1, vf),
        col_of(index) > 0 && dirty[index - 1] ==> v2[index - 1],
        col_of(index) < 79 && dirty[index + 1] ==> v3[index + 1],
        row_of(index) > 0 && dirty[index - 80] ==> v4[index - 80],
        row_of(index) < 24 && dirty[index + 80] ==> vf[index + 80],
    ensures
        closed_fresh(dirty, v0, vf),
{
    reveal(closed_fresh);
    assert forall|j: int| #[trigger] adjacent(index, j) && dirty[j] implies vf[j] by {
        if j == index - 1 {
            assert(v2[j]);
        } else if j == index + 1 {
            assert(v3[j]);
        } else if j == index - 80 {
            assert(v4[j]);
        } else {
            assert(j == index + 80);
        }
    }
    assert forall|i: int, j: int| fresh(v0, vf, i) && #[trigger] adjacent(i, j) && dirty[j] implies vf[j] by {
        if i != index {
            assert(fresh(v1, vf, i));
        }
    }
}

/// Visits the dirty component around (`x`, `y`) depth first, marking its
/// cells in `visited` and widening `bounds` to cover them.
fn dfs(dirty: &Vec<bool>, x: usize, y: usize, visited: &mut Vec<bool>, bounds: &mut Bounds)
    requires
        dirty@.len() == BUFFER_CELLS,
        old(visited)@.len() == BUFFER_CELLS,
        x < BUFFER_WIDTH,
        y < BUFFER_HEIGHT,
        forall|i: int| 0 <= i < BUFFER_CELLS && old(visited)@[i] ==> dirty@[i],
    ensures
        grows(old(visited)@, final(visited)@),
        forall|i: int| 0 <= i < BUFFER_CELLS && final(visited)@[i] ==> dirty@[i],
        dirty@[y * 80 + x] ==> final(visited)@[y * 80 + x],
        closed_fresh(dirty@, old(visited)@, final(visited)@),
        bounds_follow(old(visited)@, final(visited)@, *old(bounds), *final(bounds)),
        reached_from(dirty@, old(visited)@, final(visited)@, y * 80 + x),
    decreases unvisited(old(visited)@),
{
    let index = y * BUFFER_WIDTH + x;
    let ghost v0 = visited@;
    let ghost b0 = *bounds;
    if visited[index] || !dirty[index] {
        assert(visited@ =~= v0);
        proof {
            reveal(bounds_follow);
            reveal(closed_fresh);
            reveal(reached_from);
        }
        return;
    }
    visited[index] = true;
    assert(row_of(index as int) == y && col_of(index as int) == x);
    if x < bounds.0 {
        bounds.0 = x;
    }
    if x > bounds.1 {
        bounds.1 = x;
    }
    if y < bounds.2 {
        bounds.2 = y;
    }
    if y > bounds.3 {
        bounds.3 = y;
    }
    let ghost v1 = visited@;
    proof {
        lemma_seed(dirty@, v0, v1, b0, *bounds, index as int, x as int, y as int);
        reveal(reached_from);
        assert forall|i: int| #[trigger] fresh(v0, v1, i) implies exists|n: nat| reach(dirty@, index as int, i, n) by {
            assert(i == index);
            assert(reach(dirty@, index as int, i, 0));
        }
        assert(reached_from(dirty@, v0, v1, index as int));
    }
    if x > 0 {
        let ghost va = visited@;
        let ghost ba = *bounds;
        proof { lemma_unvisited_shrinks(v1, va); }
        dfs(dirty, x - 1, y, visited, bounds);
        proof {
            assert(adjacent(index as int, (index - 1) as int));
            lemma_reached_chain(dirty@, v0, va, visited@, index as int, (index - 1) as int);
            lemma_bounds_chain(v0, va, visited@, b0, ba, *bounds);
            lemma_closed_chain(dirty@, v1, va, visited@);
        }
    }
    let ghost v2 = visited@;
    if x < BUFFER_WIDTH - 1 {
        let ghost va = visited@;
        let ghost ba = *bounds;
        proof { lemma_unvisited_shrinks(v1, va); }
        dfs(dirty, x + 1, y, visited, bounds);
        proof {
            assert(adjacent(index as int, (index + 1) as int));
            lemma_reached_chain(dirty@, v0, va, visited@, index as int, (index + 1) as int);
            lemma_bounds_chain(v0, va, visited@, b0, ba, *bounds);
            lemma_closed_chain(dirty@, v1, va, visited@);
        }
    }
    let ghost v3 = visited@;
    if y > 0 {
        let ghost va = visited@;
        let ghost ba = *bounds;
        proof { lemma_unvisited_shrinks(v1, va); }
        dfs(dirty, x, y - 1, visited, bounds);
        proof {
            assert(adjacent(index as int, (index - 80) as int));
            lemma_reached_chain(dirty@, v0, va, visited@, index as int, (index - 80) as int);
            lemma_bounds_chain(v0, va, visited@, b0, ba, *bounds);
            lemma_closed_chain(dirty@, v1, va, visited@);
        }
    }
    let ghost v4 = visited@;
    if y < BUFFER_HEIGHT - 1 {
        let ghost va = visited@;
        let ghost ba = *bounds;
        proof { lemma_unvisited_shrinks(v1, va); }
        dfs(dirty, x, y + 1, visited, bounds);
        proof {
            assert(adjacent(index as int, (index + 80) as int));
            lemma_reached_chain(dirty@, v0, va, visited@, index as int, (index + 80) as int);
            lemma_bounds_chain(v0, va, visited@, b0, ba, *bounds);
            lemma_closed_chain(dirty@, v1, va, visited@);
        }
    }
    proof {
        lemma_seed_closed(dirty@, v0, v1, v2, v3, v4, visited@, index as int);
    }
}

/// Whether `r` is the bounding rectangle of the cells labelled `k`: it holds
/// every one of them, and each of its four edges touches one.
pub open spec fn bounds_component(label: Seq<int>, k: int, r: Region) -> bool {
    &&& forall|i: int| 0 <= i < BUFFER_CELLS && label[i] == k ==> in_region(r, i)
    &&& exists|i: int| 0 <= i < BUFFER_CELLS && label[i] == k && row_of(i) == r.position.y
    &&& exists|i: int| 0 <= i < BUFFER_CELLS && label[i] == k && row_of(i) == r.position.y + r.size.height - 1
    &&& exists|i: int| 0 <= i < BUFFER_CELLS && label[i] == k && col_of(i) == r.position.x
    &&& exists|i: int| 0 <= i < BUFFER_CELLS && label[i] == k && col_of(i) == r.position.x + r.size.width - 1
}

/// Whether each of the first `n` labels is carried by cells that all are
/// reached, through dirty cells, from one of them.
pub open spec fn groups_connected(dirty: Seq<bool>, label: Seq<int>, n: int) -> bool {
    forall|k: int| 0 <= k < n ==> #[trigger] group_connected(dirty, label, k)
}

/// Whether some cell with label `k` reaches all cells with that label.
pub open spec fn group_connected(dirty: Seq<bool>, label: Seq<int>, k: int) -> bool {
    exists|s: int| #[trigger] group_seed(dirty, label, k, s)
}

/// Whether `s` carries label `k` and reaches every cell that carries it.
pub open spec fn group_seed(dirty: Seq<bool>, label: Seq<int>, k: int, s: int) -> bool {
    &&& 0 <= s < BUFFER_CELLS
    &&& label[s] == k
    &&& forall|i: int| 0 <= i < BUFFER_CELLS && #[trigger] label[i] == k ==> exists|n: nat| reach(dirty, s, i, n)
}

/// Whether `label` numbers the 4-connected groups of dirty cells so that
/// `regions[k]` bounds group `k`: every dirty cell has a label below
/// `regions.len()` and every clean one none, neighbouring dirty cells share
/// their label, the cells of a label are connected through dirty cells, and
/// each region lies on the grid, is not empty, and is the bounding rectangle
/// of its group. So the labels are exactly the connected components, and
/// they are numbered in row-major order of their first cells.
pub open spec fn labels_regions(dirty: Seq<bool>, label: Seq<int>, regions: Seq<Region>) -> bool {
    &&& labels_groups(dirty, label, regions)
    &&& groups_connected(dirty, label, regions.len() as int)
    &&& labels_in_scan_order(label)
}

/// Whether labels come in row-major order of their groups' first cells:
/// before any cell labelled `k > 0` there is one labelled `k - 1`.
pub open spec fn labels_in_scan_order(label: Seq<int>) -> bool {
    forall|j: int| 0 <= j < BUFFER_CELLS && #[trigger] label[j] >= 1 ==>
        exists|i: int| 0 <= i <= j && label[i] == label[j] - 1
}

/// `labels_regions` without connectivity.
pub open spec fn labels_groups(dirty: Seq<bool>, label: Seq<int>, regions: Seq<Region>) -> bool {
    &&& label.len() == BUFFER_CELLS
    &&& forall|i: int| 0 <= i < BUFFER_CELLS ==> (dirty[i] <==> 0 <= #[trigger] label[i] < regions.len())
    &&& forall|i: int, j: int| #[trigger] adjacent(i, j) && dirty[i] && dirty[j] ==> label[i] == label[j]
    &&& forall|k: int| 0 <= k < regions.len() ==> {
        &&& region_fits(#[trigger] regions[k])
        &&& regions[k].size.width >= 1
        &&& regions[k].size.height >= 1
        &&& bounds_component(label, k, regions[k])
    }
}

pub open spec fn relabel(label: Seq<int>, before: Seq<bool>, after: Seq<bool>, k: int) -> Seq<int> {
    Seq::new(BUFFER_CELLS as nat, |j: int| if fresh(before, after, j) { k } else { label[j] })
}

/// The labelling invariant of the scan: visited cells are exactly the
/// labelled ones, and `labels_regions` holds of the visited part.
pub open spec fn scan_state(dirty: Seq<bool>, visited: Seq<bool>, label: Seq<int>, regions: Seq<Region>) -> bool {
    &&& visited.len() == BUFFER_CELLS
    &&& label.len() == BUFFER_CELLS
    &&& forall|j: int| 0 <= j < BUFFER_CELLS && visited[j] ==> dirty[j]
    &&& forall|j: int| 0 <= j < BUFFER_CELLS && !visited[j] ==> label[j] == -1
    &&& forall|j: int, l: int| #[trigger] adjacent(j, l) && visited[j] && dirty[l] ==> visited[l]
    &&& labels_groups(visited, label, regions)
    &&& groups_connected(dirty, label, regions.len() as int)
    &&& labels_in_scan_order(label)
}

proof fn lemma_add_component(
    dirty: Seq<bool>,
    vb: Seq<bool>,
    va: Seq<bool>,
    label: Seq<int>,
    regions: Seq<Region>,
    seed: int,
    b: Bounds,
    r: Region,
)
    requires
        dirty.len() == BUFFER_CELLS,
        scan_state(dirty, vb, label, regions),
        0 <= seed < BUFFER_CELLS,
        dirty[seed],
        !vb[seed],
        va[seed],
        grows(vb, va),
        forall|i: int| 0 <= i < BUFFER_CELLS && va[i] ==> dirty[i],
        closed_fresh(dirty, vb, va),
        reached_from(dirty, vb, va, seed),
        forall|j: int| #[trigger] fresh(vb, va, j) ==> j >= seed,
        regions.len() > 0 ==> exists|p: int| 0 <= p < seed && label[p] == regions.len() - 1,
        bounds_follow(vb, va, (col_of(seed) as usize, col_of(seed) as usize, row_of(seed) as usize, row_of(seed) as usize), b),
        r == (Region {
            position: Position { x: b.0, y: b.2 },
            size: Size { width: (b.1 - b.0 + 1) as usize, height: (b.3 - b.2 + 1) as usize },
        }),
    ensures
        scan_state(dirty, va, relabel(label, vb, va, regions.len() as int), regions.push(r)),
{
    reveal(bounds_follow);
    reveal(closed_fresh);
    let k = regions.len() as int;
    let nl = relabel(label, vb, va, k);
    let nr = regions.push(r);
    assert(fresh(vb, va, seed));
    assert forall|j: int, l: int| #[trigger] adjacent(j, l) && va[j] && dirty[l] implies va[l] by {
        if !vb[j] {
            assert(fresh(vb, va, j));
        }
    }
    assert forall|i: int, j: int| #[trigger] adjacent(i, j) && va[i] && va[j] implies nl[i] == nl[j] by {
        assert(adjacent(j, i));
        if fresh(vb, va, i) && !fresh(vb, va, j) {
            assert(vb[j]);
        }
        if fresh(vb, va, j) && !fresh(vb, va, i) {
            assert(vb[i]);
        }
    }
    assert forall|i: int| 0 <= i < BUFFER_CELLS implies (va[i] <==> 0 <= #[trigger] nl[i] < nr.len()) by {
        if vb[i] {
            assert(0 <= label[i] < regions.len());
            assert(!fresh(vb, va, i));
            assert(nl[i] == label[i]);
        } else if va[i] {
            assert(fresh(vb, va, i));
            assert(nl[i] == k);
        } else {
            assert(!fresh(vb, va, i));
            assert(nl[i] == label[i]);
            assert(!(0 <= label[i] < regions.len()));
        }
    }
    assert(b.1 < 80 && b.3 < 25) by {
        if b.1 != col_of(seed) {
            let i = choose|i: int| #[trigger] fresh(vb, va, i) && col_of(i) == b.1;
        }
        if b.3 != row_of(seed) {
            let i = choose|i: int| #[trigger] fresh(vb, va, i) && row_of(i) == b.3;
        }
    }
    assert(bounds_component(nl, k, r)) by {
        assert forall|i: int| 0 <= i < BUFFER_CELLS && nl[i] == k implies in_region(r, i) by {
            if !fresh(vb, va, i) {
                if vb[i] {
                    assert(0 <= label[i] < regions.len());
                } else {
                    assert(label[i] == nl[i]);
                    assert(!(0 <= label[i] < regions.len()));
                }
            }
        }
        let w0 = if b.2 == row_of(seed) { seed } else { choose|i: int| #[trigger] fresh(vb, va, i) && row_of(i) == b.2 };
        assert(nl[w0] == k);
        let w1 = if b.3 == row_of(seed) { seed } else { choose|i: int| #[trigger] fresh(vb, va, i) && row_of(i) == b.3 };
        assert(nl[w1] == k);
        let w2 = if b.0 == col_of(seed) { seed } else { choose|i: int| #[trigger] fresh(vb, va, i) && col_of(i) == b.0 };
        assert(nl[w2] == k);
        let w3 = if b.1 == col_of(seed) { seed } else { choose|i: int| #[trigger] fresh(vb, va, i) && col_of(i) == b.1 };
        assert(nl[w3] == k);
    }
    assert(groups_connected(dirty, nl, nr.len() as int)) by {
        reveal(reached_from);
        assert forall|q: int| 0 <= q < nr.len() implies #[trigger] group_connected(dirty, nl, q) by {
            if q < k {
                assert(group_connected(dirty, label, q));
                let s = choose|s: int| #[trigger] group_seed(dirty, label, q, s);
                assert(vb[s]);
                assert(!fresh(vb, va, s));
                assert forall|i: int| 0 <= i < BUFFER_CELLS && #[trigger] nl[i] == q implies exists|n: nat| reach(dirty, s, i, n) by {
                    if fresh(vb, va, i) {
                        assert(nl[i] == k);
                    }
                    assert(label[i] == q);
                }
                assert(group_seed(dirty, nl, q, s));
            } else {
                assert forall|i: int| 0 <= i < BUFFER_CELLS && #[trigger] nl[i] == q implies exists|n: nat| reach(dirty, seed, i, n) by {
                    if !fresh(vb, va, i) {
                        if vb[i] {
                            assert(0 <= label[i] < regions.len());
                        } else {
                            assert(label[i] == -1);
                        }
                    }
                }
                assert(group_seed(dirty, nl, q, seed));
            }
        }
    }
    assert(labels_in_scan_order(nl)) by {
        assert forall|j: int| 0 <= j < BUFFER_CELLS && #[trigger] nl[j] >= 1 implies
            exists|i: int| 0 <= i <= j && nl[i] == nl[j] - 1 by {
            if fresh(vb, va, j) {
                let p = choose|p: int| 0 <= p < seed && label[p] == regions.len() - 1;
                assert(vb[p]) by {
                    assert(0 <= label[p] < regions.len());
                }
                assert(!fresh(vb, va, p));
                assert(nl[p] == k - 1);
            } else {
                assert(nl[j] == label[j]);
                let i = choose|i: int| 0 <= i <= j && label[i] == label[j] - 1;
                assert(0 <= label[i]);
                if !vb[i] {
                    assert(label[i] == -1);
                }
                assert(!fresh(vb, va, i));
                assert(nl[i] == label[i]);
            }
        }
    }
    assert forall|q: int| 0 <= q < nr.len() implies {
        &&& region_fits(#[trigger] nr[q])
        &&& nr[q].size.width >= 1
        &&& nr[q].size.height >= 1
        &&& bounds_component(nl, q, nr[q])
    } by {
        if q < k {
            assert(nr[q] == regions[q]);
            assert(bounds_component(label, q, regions[q]));
            assert forall|i: int| 0 <= i < BUFFER_CELLS && nl[i] == q implies in_region(regions[q], i) by {
                assert(!fresh(vb, va, i));
            }
            let w0 = choose|i: int| 0 <= i < BUFFER_CELLS && label[i] == q && row_of(i) == regions[q].position.y;
            assert(vb[w0] && !fresh(vb, va, w0) && nl[w0] == q);
            let w1 = choose|i: int| 0 <= i < BUFFER_CELLS && label[i] == q && row_of(i) == regions[q].position.y + regions[q].size.height - 1;
            assert(vb[w1] && !fresh(vb, va, w1) && nl[w1] == q);
            let w2 = choose|i: int| 0 <= i < BUFFER_CELLS && label[i] == q && col_of(i) == regions[q].position.x;
            assert(vb[w2] && !fresh(vb, va, w2) && nl[w2] == q);
            let w3 = choose|i: int| 0 <= i < BUFFER_CELLS && label[i] == q && col_of(i) == regions[q].position.x + regions[q].size.width - 1;
            assert(vb[w3] && !fresh(vb, va, w3) && nl[w3] == q);
        }
    }
}

/// The bounding rectangles of the 4-connected groups of dirty cells, one
/// per group, found by a row-major scan that floods each group from its
/// first cell.
pub fn dirty_regions(dirty: &Vec<bool>) -> (r: Vec<Region>)
    requires
        dirty@.len() == BUFFER_CELLS,
    ensures
        exists|label: Seq<int>| labels_regions(dirty@, label, r@),
{
    let mut regions: Vec<Region> = Vec::new();
    let mut visited: Vec<bool> = vec![false; BUFFER_CELLS];
    let ghost mut label: Seq<int> = Seq::new(BUFFER_CELLS as nat, |j: int| -1int);
    proof {
        reveal(closed_fresh);
    }
    assert(groups_connected(dirty@, label, 0));
    let mut i: usize = 0;
    while i < BUFFER_CELLS
        invariant
            dirty@.len() == BUFFER_CELLS,
            i <= BUFFER_CELLS,
            scan_state(dirty@, visited@, label, regions@),
            forall|j: int| 0 <= j < i && dirty@[j] ==> visited@[j],
            regions@.len() > 0 ==> exists|p: int| 0 <= p < i && label[p] == regions@.len() - 1,
        decreases BUFFER_CELLS - i,
    {
        let x = i % BUFFER_WIDTH;
        let y = i / BUFFER_WIDTH;
        if dirty[i] && !visited[i] {
            let ghost vb = visited@;
            let mut bounds: Bounds = (x, x, y, y);
            dfs(dirty, x, y, &mut visited, &mut bounds);
            proof {
                reveal(bounds_follow);
                if bounds.1 != x {
                    let w = choose|w: int| #[trigger] fresh(vb, visited@, w) && col_of(w) == bounds.1;
                }
                if bounds.3 != y {
                    let w = choose|w: int| #[trigger] fresh(vb, visited@, w) && row_of(w) == bounds.3;
                }
            }
            let region = Region::new(
                Position::new(bounds.0, bounds.2),
                Size::new(bounds.1 - bounds.0 + 1, bounds.3 - bounds.2 + 1),
            );
            proof {
                assert forall|j: int| #[trigger] fresh(vb, visited@, j) implies j >= i by {}
                lemma_add_component(dirty@, vb, visited@, label, regions@, i as int, bounds, region);
                assert(fresh(vb, visited@, i as int));
                label = relabel(label, vb, visited@, regions@.len() as int);
                assert(label[i as int] == regions@.len());
            }
            regions.push(region);
        }
        i = i + 1;
    }
    assert(visited@ =~= dirty@);
    assert(labels_regions(dirty@, label, regions@));
    regions
}

} // verus!

