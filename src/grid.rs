use vstd::prelude::*;

verus! {

/// Abstract state of a grid: its width and height in cells, and the
/// occupancy of each cell in row-major order (index `y * width + x`).
pub struct GridModel {
    pub width: nat,
    pub height: nat,
    pub cells: Seq<bool>,
}

impl GridModel {
    /// Positive dimensions, one cell per index, and every index fits a `usize`.
    pub open spec fn wf(self) -> bool {
        &&& self.width > 0
        &&& self.height > 0
        &&& self.width * self.height <= usize::MAX
        &&& self.cells.len() == self.width * self.height
    }

    pub open spec fn size(self) -> int {
        (self.width * self.height) as int
    }

    pub open spec fn valid_index(self, i: int) -> bool {
        0 <= i < self.size()
    }

    pub open spec fn in_bottom_row(self, i: int) -> bool {
        i / (self.width as int) == self.height - 1
    }

    pub open spec fn in_left_column(self, i: int) -> bool {
        i % (self.width as int) == 0
    }

    pub open spec fn in_right_column(self, i: int) -> bool {
        i % (self.width as int) == self.width - 1
    }

    /// The cell straight below `i`, if any.
    pub open spec fn below(self, i: int) -> Option<int> {
        if self.in_bottom_row(i) {
            None
        } else {
            Some(i + self.width)
        }
    }

    /// The cell diagonally below and to the left of `i`, if any.
    pub open spec fn below_left(self, i: int) -> Option<int> {
        if self.in_bottom_row(i) || self.in_left_column(i) {
            None
        } else {
            Some(i + self.width - 1)
        }
    }

    /// The cell diagonally below and to the right of `i`, if any.
    pub open spec fn below_right(self, i: int) -> Option<int> {
        if self.in_bottom_row(i) || self.in_right_column(i) {
            None
        } else {
            Some(i + self.width + 1)
        }
    }

    /// The index of the cell in column `x` and row `y`.
    pub open spec fn index_of(self, x: int, y: int) -> int {
        y * self.width + x
    }
}

/// An index as a mathematical integer, kept inside an `Option`.
pub open spec fn opt_int(o: Option<usize>) -> Option<int> {
    match o {
        Some(v) => Some(v as int),
        None => None,
    }
}

/// Number of occupied cells in `s`.
pub open spec fn count(s: Seq<bool>) -> nat
    decreases s.len(),
{
    if s.len() == 0 {
        0
    } else {
        count(s.drop_last()) + if s.last() { 1nat } else { 0nat }
    }
}

pub open spec fn bit(b: bool) -> int {
    if b { 1 } else { 0 }
}

/// Writing one cell changes the count by the difference of the two values.
pub proof fn lemma_count_update(s: Seq<bool>, j: int, v: bool)
    requires
        0 <= j < s.len(),
    ensures
        count(s.update(j, v)) == count(s) - bit(s[j]) + bit(v),
    decreases s.len(),
{
    let t = s.update(j, v);
    if j == s.len() - 1 {
        assert(t.drop_last() =~= s.drop_last());
    } else {
        assert(t.drop_last() =~= s.drop_last().update(j, v));
        lemma_count_update(s.drop_last(), j, v);
    }
}

/// A neighbour below a valid index is itself a valid index, further down.
pub proof fn lemma_neighbors_in_range(g: GridModel, i: int)
    requires
        g.wf(),
        g.valid_index(i),
    ensures
        g.below(i) is Some ==> i < g.below(i).unwrap() < g.size(),
        g.below_left(i) is Some ==> i < g.below_left(i).unwrap() < g.size(),
        g.below_right(i) is Some ==> i < g.below_right(i).unwrap() < g.size(),
        g.below(i) is Some ==> g.below(i).unwrap() / (g.width as int) == i / (g.width as int) + 1,
        g.below_left(i) is Some ==> g.below_left(i).unwrap() / (g.width as int) == i / (g.width as int) + 1,
        g.below_right(i) is Some ==> g.below_right(i).unwrap() / (g.width as int) == i / (g.width as int) + 1,
{
    let w = g.width as int;
    let h = g.height as int;
    let q = i / w;
    let r = i % w;
    vstd::arithmetic::div_mod::lemma_fundamental_div_mod(i, w);
    assert(0 <= r < w);
    assert(q < h) by (nonlinear_arith)
        requires i == w * q + r, 0 <= r, i < w * h, w > 0;
    assert(q >= 0) by (nonlinear_arith)
        requires i == w * q + r, r < w, i >= 0, w > 0;
    if q != h - 1 {
        assert(i + w + w <= w * h + r) by (nonlinear_arith)
            requires i == w * q + r, q < h - 1, w > 0;
        assert(i + w == (q + 1) * w + r) by (nonlinear_arith)
            requires i == w * q + r;
        vstd::arithmetic::div_mod::lemma_fundamental_div_mod_converse(i + w, w, q + 1, r);
        if r != 0 {
            vstd::arithmetic::div_mod::lemma_fundamental_div_mod_converse(i + w - 1, w, q + 1, r - 1);
        }
        if r != w - 1 {
            vstd::arithmetic::div_mod::lemma_fundamental_div_mod_converse(i + w + 1, w, q + 1, r + 1);
        }
    }
}

/// A rectangular occupancy grid, stored row-major.
pub struct ParticleGrid {
    width: usize,
    height: usize,
    cells: Vec<bool>,
}

impl View for ParticleGrid {
    type V = GridModel;

    closed spec fn view(&self) -> GridModel {
        GridModel { width: self.width as nat, height: self.height as nat, cells: self.cells@ }
    }
}

impl ParticleGrid {
    pub open spec fn wf(&self) -> bool {
        self@.wf()
    }

    /// An all-empty grid of `width * height` cells.
    pub fn new(width: usize, height: usize) -> (r: ParticleGrid)
        requires
            width > 0,
            height > 0,
            width * height <= usize::MAX,
        ensures
            r.wf(),
            r@.width == width,
            r@.height == height,
            r@.cells == Seq::new((width * height) as nat, |i: int| false),
    {
        let n: usize = width * height;
        let cells: Vec<bool> = vec![false; n];
        let r = ParticleGrid { width, height, cells };
        assert(r@.cells =~= Seq::new((width * height) as nat, |i: int| false));
        r
    }

    pub fn width(&self) -> (r: usize)
        ensures
            r == self@.width,
    {
        self.width
    }

    pub fn height(&self) -> (r: usize)
        ensures
            r == self@.height,
    {
        self.height
    }

    /// Total number of cells.
    pub fn len(&self) -> (r: usize)
        requires
            self.wf(),
        ensures
            r == self@.size(),
    {
        self.cells.len()
    }

    pub fn is_occupied(&self, index: usize) -> (r: bool)
        requires
            self.wf(),
            self@.valid_index(index as int),
        ensures
            r == self@.cells[index as int],
    {
        self.cells[index]
    }

    pub fn set(&mut self, index: usize, value: bool)
        requires
            old(self).wf(),
            old(self)@.valid_index(index as int),
        ensures
            final(self)@ == (GridModel { cells: old(self)@.cells.update(index as int, value), ..old(self)@ }),
    {
        self.cells.set(index, value);
    }

    pub fn neighbor_below(&self, index: usize) -> (r: Option<usize>)
        requires
            self.wf(),
            self@.valid_index(index as int),
        ensures
            opt_int(r) == self@.below(index as int),
    {
        proof { lemma_neighbors_in_range(self@, index as int); }
        if index / self.width == self.height - 1 {
            None
        } else {
            Some(index + self.width)
        }
    }

    pub fn neighbor_below_left(&self, index: usize) -> (r: Option<usize>)
        requires
            self.wf(),
            self@.valid_index(index as int),
        ensures
            opt_int(r) == self@.below_left(index as int),
    {
        proof { lemma_neighbors_in_range(self@, index as int); }
        if index / self.width == self.height - 1 || index % self.width == 0 {
            None
        } else {
            Some(index + self.width - 1)
        }
    }

    pub fn neighbor_below_right(&self, index: usize) -> (r: Option<usize>)
        requires
            self.wf(),
            self@.valid_index(index as int),
        ensures
            opt_int(r) == self@.below_right(index as int),
    {
        proof { lemma_neighbors_in_range(self@, index as int); }
        if index / self.width == self.height - 1 || index % self.width == self.width - 1 {
            None
        } else {
            Some(index + self.width + 1)
        }
    }

    /// Occupancy of the cell in column `x` and row `y`.
    pub fn is_occupied_at(&self, x: usize, y: usize) -> (r: bool)
        requires
            self.wf(),
            x < self@.width,
            y < self@.height,
        ensures
            r == self@.cells[self@.index_of(x as int, y as int)],
    {
        proof {
            let w = self.width as int;
            let h = self.height as int;
            assert(y * w + x < w * h) by (nonlinear_arith)
                requires x < w, y < h;
            assert(y * w <= y * w + x);
        }
        self.cells[y * self.width + x]
    }
}

} // verus!
