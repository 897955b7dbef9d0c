use vstd::prelude::*;
use crate::grid::{GridModel, ParticleGrid, count, lemma_neighbors_in_range};
use crate::rules::{taken, apply_cell, pass, step_model, lemma_pass};

verus! {

/// Number of grid columns behind one screen cell.
pub const BRAILLE_COLS: usize = 2;
/// Number of grid rows behind one screen cell.
pub const BRAILLE_ROWS: usize = 4;

/// Relies on rand::random::<bool>, which draws from the standard uniform
/// distribution; nothing is promised of the value.
#[verifier::external_body]
fn coin_flip() -> (r: bool) {
    rand::random::<bool>()
}

/// Relies on rand::random_range over `0..n`, which returns a value of that
/// range and panics when the range is empty.
#[verifier::external_body]
fn random_below(n: usize) -> (r: usize)
    requires
        n > 0,
    ensures
        r < n,
{
    rand::random_range(0..n)
}

/// A simulation: the current grid, sized to a screen of braille cells, and
/// the snapshot that a tick reads its decisions from.
pub struct GameWorld {
    screen_width: usize,
    screen_height: usize,
    particles: ParticleGrid,
    previous_particles: Vec<bool>,
}

impl View for GameWorld {
    type V = GridModel;

    closed spec fn view(&self) -> GridModel {
        self.particles@
    }
}

/// `g` with its cells replaced by `cells`.
pub open spec fn with_cells(g: GridModel, cells: Seq<bool>) -> GridModel {
    GridModel { cells, ..g }
}

impl GameWorld {
    pub closed spec fn inv(&self) -> bool {
        &&& self.particles.wf()
        &&& self.screen_width == self.particles@.width / (BRAILLE_COLS as nat)
        &&& self.screen_height == self.particles@.height / (BRAILLE_ROWS as nat)
        &&& self.previous_particles@.len() == self.particles@.cells.len()
    }

    pub open spec fn wf(&self) -> bool {
        &&& self.inv()
        &&& self@.wf()
    }

    /// The occupancy that the current or last tick read its decisions from.
    pub closed spec fn snapshot(&self) -> Seq<bool> {
        self.previous_particles@
    }

    pub open spec fn snapshot_model(&self) -> GridModel {
        with_cells(self@, self.snapshot())
    }

    /// An empty world behind a screen of `screen_width × screen_height`
    /// braille cells.
    pub fn new(screen_width: usize, screen_height: usize) -> (r: GameWorld)
        requires
            screen_width > 0,
            screen_height > 0,
            (screen_width * BRAILLE_COLS) * (screen_height * BRAILLE_ROWS) <= usize::MAX,
        ensures
            r.wf(),
            r@.width == screen_width * BRAILLE_COLS,
            r@.height == screen_height * BRAILLE_ROWS,
            r@.cells == Seq::new(r@.size() as nat, |i: int| false),
            r.snapshot() == Seq::new(r@.size() as nat, |i: int| false),
    {
        proof {
            let a = screen_width as int * 2;
            let b = screen_height as int * 4;
            assert(a <= a * b && b <= a * b) by (nonlinear_arith)
                requires a > 0, b > 0;
        }
        let world_width: usize = screen_width * BRAILLE_COLS;
        let world_height: usize = screen_height * BRAILLE_ROWS;
        let particles = ParticleGrid::new(world_width, world_height);
        let previous_particles: Vec<bool> = vec![false; world_width * world_height];
        GameWorld { screen_width, screen_height, particles, previous_particles }
    }

    /// A world over `grid`, with as many braille cells as whole 2×4 blocks
    /// fit in it.
    pub fn from_grid(grid: ParticleGrid) -> (r: GameWorld)
        requires
            grid.wf(),
        ensures
            r.wf(),
            r@ == grid@,
            r.snapshot() == Seq::new(r@.size() as nat, |i: int| false),
    {
        let n = grid.len();
        let screen_width = grid.width() / BRAILLE_COLS;
        let screen_height = grid.height() / BRAILLE_ROWS;
        let previous_particles: Vec<bool> = vec![false; n];
        GameWorld { screen_width, screen_height, particles: grid, previous_particles }
    }

    pub fn screen_width(&self) -> (r: usize)
        requires
            self.wf(),
        ensures
            r == self@.width / (BRAILLE_COLS as nat),
    {
        self.screen_width
    }

    pub fn screen_height(&self) -> (r: usize)
        requires
            self.wf(),
        ensures
            r == self@.height / (BRAILLE_ROWS as nat),
    {
        self.screen_height
    }

    /// The current grid.
    pub fn grid(&self) -> (r: &ParticleGrid)
        requires
            self.wf(),
        ensures
            r.wf(),
            r@ == self@,
    {
        &self.particles
    }

    /// Puts a grain in column `column` of the top row.
    pub fn inject(&mut self, column: usize)
        requires
            old(self).wf(),
            column < old(self)@.width,
        ensures
            final(self).wf(),
            final(self)@ == with_cells(old(self)@, old(self)@.cells.update(column as int, true)),
    {
        proof {
            let w = self@.width as int;
            let h = self@.height as int;
            assert(column < w * h) by (nonlinear_arith)
                requires column < w, h > 0;
        }
        self.particles.set(column, true);
    }

    /// Puts a grain in a column of the top row drawn at random, and returns
    /// that column.
    pub fn inject_random(&mut self) -> (r: usize)
        requires
            old(self).wf(),
        ensures
            final(self).wf(),
            r < old(self)@.width,
            final(self)@ == with_cells(old(self)@, old(self)@.cells.update(r as int, true)),
    {
        let column = random_below(self.particles.width());
        self.inject(column);
        column
    }

    /// Occupancy of the cell below `x`, or `None` in the bottom row.
    pub fn get_cell_below(&self, x: usize) -> (r: Option<bool>)
        requires
            self.wf(),
            self@.valid_index(x as int),
        ensures
            r == (match self@.below(x as int) {
                Some(b) => Some(self@.cells[b]),
                None => None,
            }),
    {
        proof { lemma_neighbors_in_range(self@, x as int); }
        match self.particles.neighbor_below(x) {
            Some(b) => Some(self.particles.is_occupied(b)),
            None => None,
        }
    }

    /// Occupancy of the cells diagonally below `x`, left and right; `None`
    /// for one that lies off the grid.
    pub fn get_diagonal_cells_below(&self, x: usize) -> (r: (Option<bool>, Option<bool>))
        requires
            self.wf(),
            self@.valid_index(x as int),
        ensures
            r.0 == (match self@.below_left(x as int) {
                Some(b) => Some(self@.cells[b]),
                None => None,
            }),
            r.1 == (match self@.below_right(x as int) {
                Some(b) => Some(self@.cells[b]),
                None => None,
            }),
    {
        proof { lemma_neighbors_in_range(self@, x as int); }
        let left = match self.particles.neighbor_below_left(x) {
            Some(b) => Some(self.particles.is_occupied(b)),
            None => None,
        };
        let right = match self.particles.neighbor_below_right(x) {
            Some(b) => Some(self.particles.is_occupied(b)),
            None => None,
        };
        (left, right)
    }

    /// Whether the cell `o` names is taken in this tick: full in the
    /// snapshot, or already claimed by a grain that moved this tick.
    fn taken_in_tick(&self, o: Option<usize>) -> (r: Option<bool>)
        requires
            self.wf(),
            o is Some ==> self@.valid_index(o.unwrap() as int),
        ensures
            r == (match o {
                Some(b) => Some(taken(self.snapshot(), self@.cells, b as int)),
                None => None,
            }),
    {
        match o {
            Some(b) => Some(self.previous_particles[b] || self.particles.is_occupied(b)),
            None => None,
        }
    }

    /// Moves the grain at `x` to `dest`.
    fn move_grain(&mut self, x: usize, dest: usize)
        requires
            old(self).wf(),
            old(self)@.valid_index(x as int),
            old(self)@.valid_index(dest as int),
        ensures
            final(self).wf(),
            final(self).snapshot() == old(self).snapshot(),
            final(self)@ == with_cells(
                old(self)@,
                old(self)@.cells.update(x as int, false).update(dest as int, true),
            ),
    {
        self.particles.set(x, false);
        self.particles.set(dest, true);
    }

    /// Moves the grain at `x` one row down.
    pub fn fall_down(&mut self, x: usize)
        requires
            old(self).wf(),
            old(self)@.valid_index(x as int),
            old(self)@.below(x as int) is Some,
        ensures
            final(self).wf(),
            final(self).snapshot() == old(self).snapshot(),
            final(self)@ == with_cells(
                old(self)@,
                old(self)@.cells.update(x as int, false).update(old(self)@.below(x as int).unwrap(), true),
            ),
    {
        proof { lemma_neighbors_in_range(self@, x as int); }
        let w = self.particles.width();
        self.move_grain(x, x + w);
    }

    /// Moves the grain at `x` one row down and one column left.
    pub fn fall_left(&mut self, x: usize)
        requires
            old(self).wf(),
            old(self)@.valid_index(x as int),
            old(self)@.below_left(x as int) is Some,
        ensures
            final(self).wf(),
            final(self).snapshot() == old(self).snapshot(),
            final(self)@ == with_cells(
                old(self)@,
                old(self)@.cells.update(x as int, false).update(old(self)@.below_left(x as int).unwrap(), true),
            ),
    {
        proof { lemma_neighbors_in_range(self@, x as int); }
        let w = self.particles.width();
        self.move_grain(x, x + w - 1);
    }

    /// Moves the grain at `x` one row down and one column right.
    pub fn fall_right(&mut self, x: usize)
        requires
            old(self).wf(),
            old(self)@.valid_index(x as int),
            old(self)@.below_right(x as int) is Some,
        ensures
            final(self).wf(),
            final(self).snapshot() == old(self).snapshot(),
            final(self)@ == with_cells(
                old(self)@,
                old(self)@.cells.update(x as int, false).update(old(self)@.below_right(x as int).unwrap(), true),
            ),
    {
        proof { lemma_neighbors_in_range(self@, x as int); }
        let w = self.particles.width();
        self.move_grain(x, x + w + 1);
    }

    /// Copies the current grid into the snapshot.
    fn take_snapshot(&mut self)
        requires
            old(self).wf(),
        ensures
            final(self).wf(),
            final(self)@ == old(self)@,
            final(self).snapshot() == old(self)@.cells,
    {
        let n = self.particles.len();
        let mut i: usize = 0;
        while i < n
            invariant
                self.wf(),
                self@ == old(self)@,
                n == self@.size(),
                0 <= i <= n,
                forall|j: int| 0 <= j < i ==> self.previous_particles@[j] == self@.cells[j],
            decreases n - i,
        {
            let v = self.particles.is_occupied(i);
            self.previous_particles.set(i, v);
            i = i + 1;
        }
        assert(self.snapshot() =~= old(self)@.cells);
    }

    /// Advances the world by one tick. Every grain is considered once, from
    /// the highest index down, against the snapshot of the grid taken at the
    /// start of the tick; `coins[i]` settles the tie of the grain at `i` when
    /// both diagonals below it are free.
    pub fn update_with_coins(&mut self, coins: &Vec<bool>)
        requires
            old(self).wf(),
            coins@.len() == old(self)@.size(),
        ensures
            final(self).wf(),
            final(self)@ == step_model(old(self)@, coins@),
            count(final(self)@.cells) == count(old(self)@.cells),
            final(self).snapshot() == old(self)@.cells,
    {
        self.take_snapshot();
        let ghost g = old(self)@;
        let n = self.particles.len();
        let mut i: usize = n;
        while i > 0
            invariant
                self.wf(),
                self.snapshot() == g.cells,
                self@ == with_cells(g, pass(g, coins@, i as nat)),
                g.wf(),
                coins@.len() == g.size(),
                n == g.size(),
                0 <= i <= n,
            decreases i,
        {
            let x = i - 1;
            proof {
                lemma_pass(g, coins@, i as nat);
                lemma_neighbors_in_range(g, x as int);
            }
            let ghost work = self@.cells;
            if self.previous_particles[x] {
                match self.taken_in_tick(self.particles.neighbor_below(x)) {
                    Some(false) => {
                        self.fall_down(x);
                    },
                    _ => {
                        let left = self.taken_in_tick(self.particles.neighbor_below_left(x));
                        let right = self.taken_in_tick(self.particles.neighbor_below_right(x));
                        let left_free = matches!(left, Some(false));
                        let right_free = matches!(right, Some(false));
                        if left_free && right_free {
                            if coins[x] {
                                self.fall_left(x);
                            } else {
                                self.fall_right(x);
                            }
                        } else if left_free {
                            self.fall_left(x);
                        } else if right_free {
                            self.fall_right(x);
                        }
                    },
                }
            }
            assert(self@.cells == apply_cell(g, work, x as int, coins@[x as int]));
            i = x;
        }
        proof {
            lemma_pass(g, coins@, 0);
        }
    }

    /// Advances the world by one tick, settling each tie between two free
    /// diagonals by a random draw.
    pub fn update(&mut self)
        requires
            old(self).wf(),
        ensures
            final(self).wf(),
            exists|coins: Seq<bool>|
                coins.len() == old(self)@.size() && final(self)@ == #[trigger] step_model(old(self)@, coins),
            count(final(self)@.cells) == count(old(self)@.cells),
            final(self).snapshot() == old(self)@.cells,
    {
        let n = self.particles.len();
        let mut coins: Vec<bool> = Vec::new();
        let mut i: usize = 0;
        while i < n
            invariant
                0 <= i <= n,
                coins@.len() == i,
            decreases n - i,
        {
            coins.push(coin_flip());
            i = i + 1;
        }
        self.update_with_coins(&coins);
    }
}

} // verus!
