use vstd::prelude::*;
use crate::grid::{GridModel, count};
use crate::rules::{pass, step_model, lemma_pass};
use crate::glyph::{is_frame, frame_entry};

verus! {

/// A tick neither creates nor destroys grains, whatever the coins.
pub proof fn lemma_step_conserves_grains(g: GridModel, coins: Seq<bool>)
    requires
        g.wf(),
        coins.len() == g.size(),
    ensures
        count(step_model(g, coins).cells) == count(g.cells),
{
    lemma_pass(g, coins, 0);
}

/// A cell in the bottom row has nothing below it; a cell in the leftmost
/// column has nothing below-left of it; a cell in the rightmost column has
/// nothing below-right of it.
pub proof fn lemma_edge_cells_lack_neighbors(g: GridModel, i: int)
    requires
        g.wf(),
        g.valid_index(i),
    ensures
        i / (g.width as int) == g.height - 1 ==> g.below(i) is None,
        i % (g.width as int) == 0 ==> g.below_left(i) is None,
        i % (g.width as int) == g.width - 1 ==> g.below_right(i) is None,
{
}

/// The grid of `n` cells whose only grain is at `i`.
pub open spec fn lone_grain(n: nat, i: int) -> Seq<bool> {
    Seq::new(n, |j: int| j == i)
}

/// Considering cells that were empty at the start of the tick changes
/// nothing.
proof fn lemma_pass_over_empty(g: GridModel, coins: Seq<bool>, k: nat, m: nat)
    requires
        g.wf(),
        coins.len() == g.size(),
        k <= m <= g.size(),
        forall|j: int| k <= j < m ==> !#[trigger] g.cells[j],
    ensures
        pass(g, coins, k) == pass(g, coins, m),
    decreases m - k,
{
    if k < m {
        lemma_pass_over_empty(g, coins, k + 1, m);
    }
}

/// A lone grain falls one row each tick while it is above the bottom row,
/// and stays where it is once it has reached the bottom row, whatever the
/// coins.
pub proof fn lemma_lone_grain_falls_then_rests(g: GridModel, coins: Seq<bool>, i: int)
    requires
        g.wf(),
        g.valid_index(i),
        g.cells == lone_grain(g.size() as nat, i),
        coins.len() == g.size(),
    ensures
        i / (g.width as int) == g.height - 1 ==> step_model(g, coins) == g,
        i / (g.width as int) != g.height - 1 ==> step_model(g, coins) == (GridModel {
            cells: lone_grain(g.size() as nat, i + g.width),
            ..g
        }),
{
    let n = g.size() as nat;
    crate::grid::lemma_neighbors_in_range(g, i);
    lemma_pass_over_empty(g, coins, (i + 1) as nat, n);
    lemma_pass_over_empty(g, coins, 0, i as nat);
    assert(pass(g, coins, n) == g.cells);
    let moved = g.cells.update(i, false).update(i + g.width, true);
    if i / (g.width as int) != g.height - 1 {
        assert(moved =~= lone_grain(n, i + g.width));
    } else {
        assert(step_model(g, coins) =~= g);
    }
}

/// A frame is determined by the grid: two frames of one grid are equal.
pub proof fn lemma_frame_determined_by_grid(
    g: GridModel,
    f1: Seq<(usize, usize, char)>,
    f2: Seq<(usize, usize, char)>,
)
    requires
        is_frame(g, f1),
        is_frame(g, f2),
    ensures
        f1 == f2,
{
    assert forall|k: int| 0 <= k < f1.len() implies f1[k] == f2[k] by {
        assert(frame_entry(g, k, f1[k]));
        assert(frame_entry(g, k, f2[k]));
    }
    assert(f1 =~= f2);
}

} // verus!
