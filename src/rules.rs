use vstd::prelude::*;
use crate::grid::{GridModel, count, lemma_count_update, lemma_neighbors_in_range};

verus! {

/// A cell counts as taken during a tick when it held a grain at the start of
/// the tick, or when a grain has already moved into it during this tick.
pub open spec fn taken(snap: Seq<bool>, work: Seq<bool>, j: int) -> bool {
    snap[j] || work[j]
}

/// `o` names a cell, and that cell is not taken.
pub open spec fn is_free(snap: Seq<bool>, work: Seq<bool>, o: Option<int>) -> bool {
    o is Some && !taken(snap, work, o.unwrap())
}

/// Where the grain at `i` goes: straight down when that cell is free; else
/// to the one free diagonal, or, with both diagonals free, to the left one
/// when `coin` is true and to the right one otherwise; else nowhere.
/// `g` is the grid as it was at the start of the tick.
pub open spec fn destination(g: GridModel, work: Seq<bool>, i: int, coin: bool) -> Option<int> {
    let d = g.below(i);
    let l = g.below_left(i);
    let r = g.below_right(i);
    if is_free(g.cells, work, d) {
        d
    } else if is_free(g.cells, work, l) && is_free(g.cells, work, r) {
        if coin { l } else { r }
    } else if is_free(g.cells, work, l) {
        l
    } else if is_free(g.cells, work, r) {
        r
    } else {
        None
    }
}

/// The working copy after the cell `i` has been considered.
pub open spec fn apply_cell(g: GridModel, work: Seq<bool>, i: int, coin: bool) -> Seq<bool> {
    if g.cells[i] {
        match destination(g, work, i, coin) {
            Some(d) => work.update(i, false).update(d, true),
            None => work,
        }
    } else {
        work
    }
}

/// The working copy once every index from `k` up to the last has been
/// considered, from the highest index down.
pub open spec fn pass(g: GridModel, coins: Seq<bool>, k: nat) -> Seq<bool>
    decreases g.cells.len() - k,
{
    if k >= g.cells.len() {
        g.cells
    } else {
        apply_cell(g, pass(g, coins, k + 1), k as int, coins[k as int])
    }
}

/// The grid one tick after `g`, where `coins[i]` settles the tie of the
/// grain at `i` if it has one.
pub open spec fn step_model(g: GridModel, coins: Seq<bool>) -> GridModel {
    GridModel { cells: pass(g, coins, 0), ..g }
}

/// During the pass, the cells not yet considered still hold their value from
/// the start of the tick, and the number of grains never changes.
pub proof fn lemma_pass(g: GridModel, coins: Seq<bool>, k: nat)
    requires
        g.wf(),
        coins.len() == g.size(),
        k <= g.size(),
    ensures
        pass(g, coins, k).len() == g.size(),
        forall|j: int| 0 <= j < k ==> #[trigger] pass(g, coins, k)[j] == g.cells[j],
        count(pass(g, coins, k)) == count(g.cells),
    decreases g.size() - k,
{
    if k < g.size() {
        lemma_pass(g, coins, k + 1);
        let work = pass(g, coins, k + 1);
        let i = k as int;
        lemma_neighbors_in_range(g, i);
        assert(work[i] == g.cells[i]);
        if g.cells[i] {
            if let Some(d) = destination(g, work, i, coins[i]) {
                let w1 = work.update(i, false);
                lemma_count_update(work, i, false);
                lemma_count_update(w1, d, true);
                assert(!work[d]);
                assert(w1[d] == work[d]);
            }
        }
    }
}

} // verus!
