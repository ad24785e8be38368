//! The grid: a fixed-size square board of cells, read and written through
//! 1-indexed coordinates, with a verified generational transition.
//!
//! The board is modeled as a flat row-major sequence of booleans. Reads are
//! total: any coordinate outside the grid reports a dead cell, so the
//! neighbor count can treat the board as surrounded by an infinite dead
//! border and needs no edge cases.

use crate::rule::{live, live_count8, next_state, step};
use vstd::arithmetic::div_mod::{
    lemma_fundamental_div_mod, lemma_fundamental_div_mod_converse,
};
use vstd::pervasive::VecAdditionalExecFns;
use vstd::prelude::*;

verus! {

/// Side length of the square grid.
pub const BOARD_SIZE: usize = 32;

/// Whether 1-indexed coordinates `(x, y)` lie on the grid.
pub open spec fn valid_coord(x: int, y: int) -> bool {
    1 <= x <= BOARD_SIZE && 1 <= y <= BOARD_SIZE
}

/// Row-major position of the cell at 1-indexed coordinates `(x, y)`.
pub open spec fn cell_index(x: int, y: int) -> int {
    (x - 1) * (BOARD_SIZE as int) + (y - 1)
}

/// Total read of a grid: the cell at `(x, y)`, or dead for any coordinates
/// off the grid.
pub open spec fn cell_at(g: Seq<bool>, x: int, y: int) -> bool {
    valid_coord(x, y) && g[cell_index(x, y)]
}

/// Number of live cells among the eight neighbors of `(x, y)`, with
/// off-grid neighbors counting as dead.
pub open spec fn neighbor_count(g: Seq<bool>, x: int, y: int) -> int {
    live(cell_at(g, x - 1, y - 1)) + live(cell_at(g, x - 1, y)) + live(cell_at(g, x - 1, y + 1))
        + live(cell_at(g, x, y - 1)) + live(cell_at(g, x, y + 1)) + live(
        cell_at(g, x + 1, y - 1),
    ) + live(cell_at(g, x + 1, y)) + live(cell_at(g, x + 1, y + 1))
}

/// The state of the cell at `(x, y)` one generation later.
pub open spec fn next_cell(g: Seq<bool>, x: int, y: int) -> bool {
    step(cell_at(g, x, y), neighbor_count(g, x, y))
}

/// The whole grid one generation later.
pub open spec fn next_grid(g: Seq<bool>) -> Seq<bool> {
    Seq::new(
        (BOARD_SIZE * BOARD_SIZE) as nat,
        |i: int| next_cell(g, i / (BOARD_SIZE as int) + 1, i % (BOARD_SIZE as int) + 1),
    )
}

/// The row-major position of valid coordinates lies within the grid and maps
/// back to those coordinates.
pub proof fn lemma_cell_index(x: int, y: int)
    requires
        valid_coord(x, y),
    ensures
        0 <= cell_index(x, y) < BOARD_SIZE * BOARD_SIZE,
        cell_index(x, y) / (BOARD_SIZE as int) == x - 1,
        cell_index(x, y) % (BOARD_SIZE as int) == y - 1,
{
    lemma_fundamental_div_mod_converse(cell_index(x, y), BOARD_SIZE as int, x - 1, y - 1);
}

/// Every row-major position within the grid comes from exactly one pair of
/// valid coordinates.
pub proof fn lemma_index_coords(i: int)
    requires
        0 <= i < BOARD_SIZE * BOARD_SIZE,
    ensures
        valid_coord(i / (BOARD_SIZE as int) + 1, i % (BOARD_SIZE as int) + 1),
        cell_index(i / (BOARD_SIZE as int) + 1, i % (BOARD_SIZE as int) + 1) == i,
{
    lemma_fundamental_div_mod(i, BOARD_SIZE as int);
}

/// Two grids that agree on every coordinate read are the same grid.
pub proof fn lemma_grid_ext(a: Seq<bool>, b: Seq<bool>)
    requires
        a.len() == BOARD_SIZE * BOARD_SIZE,
        b.len() == BOARD_SIZE * BOARD_SIZE,
        forall|x: int, y: int| cell_at(a, x, y) == cell_at(b, x, y),
    ensures
        a == b,
{
    assert forall|i: int| 0 <= i < a.len() implies a[i] == b[i] by {
        lemma_index_coords(i);
        let x = i / (BOARD_SIZE as int) + 1;
        let y = i % (BOARD_SIZE as int) + 1;
        assert(a[i] == cell_at(a, x, y));
        assert(b[i] == cell_at(b, x, y));
    }
    assert(a =~= b);
}

/// Reading the successor grid at valid coordinates applies the transition
/// rule to the old cell and its neighbor count.
pub proof fn lemma_next_grid_cell(g: Seq<bool>, x: int, y: int)
    requires
        valid_coord(x, y),
    ensures
        cell_at(next_grid(g), x, y) == next_cell(g, x, y),
{
    lemma_cell_index(x, y);
}

/// Any read outside the grid reports a dead cell, whatever the grid holds.
pub proof fn lemma_out_of_range_dead(g: Seq<bool>, x: int, y: int)
    requires
        !valid_coord(x, y),
    ensures
        !cell_at(g, x, y),
{
}

/// A write overwrites rather than accumulates: setting a cell live and then
/// dead again leaves it reading dead.
pub proof fn lemma_set_overwrites(g: Seq<bool>, x: int, y: int)
    requires
        g.len() == BOARD_SIZE * BOARD_SIZE,
        valid_coord(x, y),
    ensures
        !cell_at(g.update(cell_index(x, y), true).update(cell_index(x, y), false), x, y),
{
    lemma_cell_index(x, y);
}

/// A fixed-size square grid of cells, each live or dead, stored row-major.
pub struct Board {
    cells: Vec<bool>,
}

impl View for Board {
    type V = Seq<bool>;

    closed spec fn view(&self) -> Seq<bool> {
        self.cells@
    }
}

impl Board {
    /// A board always holds exactly one cell per grid position.
    pub open spec fn wf(&self) -> bool {
        self@.len() == BOARD_SIZE * BOARD_SIZE
    }

    /// Returns a board with every cell dead.
    pub fn new() -> (r: Board)
        ensures
            r.wf(),
            forall|x: int, y: int| !cell_at(r@, x, y),
    {
        let mut cells: Vec<bool> = Vec::new();
        let mut i: usize = 0;
        while i < BOARD_SIZE * BOARD_SIZE
            invariant
                i <= BOARD_SIZE * BOARD_SIZE,
                cells@.len() == i,
                forall|k: int| 0 <= k < i ==> !cells@[k],
            decreases BOARD_SIZE * BOARD_SIZE - i,
        {
            cells.push(false);
            i = i + 1;
        }
        Board { cells }
    }

    /// Reads the cell at 1-indexed coordinates `(x, y)`; any coordinates off
    /// the grid read as dead.
    pub fn get(&self, x: usize, y: usize) -> (r: bool)
        requires
            self.wf(),
        ensures
            r == cell_at(self@, x as int, y as int),
    {
        if x == 0 || y == 0 || x > BOARD_SIZE || y > BOARD_SIZE {
            false
        } else {
            self.cells[(x - 1) * BOARD_SIZE + (y - 1)]
        }
    }

    /// Writes `value` into the cell at 1-indexed coordinates `(x, y)`,
    /// leaving every other cell as it was.
    pub fn set(&mut self, x: usize, y: usize, value: bool)
        requires
            old(self).wf(),
            1 <= x <= BOARD_SIZE,
            1 <= y <= BOARD_SIZE,
        ensures
            final(self).wf(),
            final(self)@ == old(self)@.update(cell_index(x as int, y as int), value),
            cell_at(final(self)@, x as int, y as int) == value,
            forall|i: int, j: int|
                !(i == x && j == y) ==> cell_at(final(self)@, i, j) == cell_at(old(self)@, i, j),
    {
        proof {
            lemma_cell_index(x as int, y as int);
        }
        self.cells.set((x - 1) * BOARD_SIZE + (y - 1), value);
        assert forall|i: int, j: int| !(i == x && j == y) implies cell_at(self@, i, j) == cell_at(
            old(self)@,
            i,
            j,
        ) by {
            if valid_coord(i, j) {
                lemma_cell_index(i, j);
            }
        }
    }

    /// Replaces the board's state with the next generation: every cell is
    /// recomputed from the prior state by the transition rule, reading the
    /// full old grid before any cell changes.
    pub fn next_generattion(&mut self)
        requires
            old(self).wf(),
        ensures
            final(self).wf(),
            final(self)@ == next_grid(old(self)@),
    {
        let ghost g = self@;
        let mut next: Vec<bool> = Vec::new();
        let mut x: usize = 1;
        while x <= BOARD_SIZE
            invariant
                self.wf(),
                self@ == g,
                1 <= x <= BOARD_SIZE + 1,
                next@.len() == (x - 1) * BOARD_SIZE,
                forall|i: int|
                    0 <= i < next@.len() ==> next@[i] == next_cell(
                        g,
                        i / (BOARD_SIZE as int) + 1,
                        i % (BOARD_SIZE as int) + 1,
                    ),
            decreases BOARD_SIZE + 1 - x,
        {
            let mut y: usize = 1;
            while y <= BOARD_SIZE
                invariant
                    self.wf(),
                    self@ == g,
                    1 <= x <= BOARD_SIZE,
                    1 <= y <= BOARD_SIZE + 1,
                    next@.len() == (x - 1) * BOARD_SIZE + (y - 1),
                    forall|i: int|
                        0 <= i < next@.len() ==> next@[i] == next_cell(
                            g,
                            i / (BOARD_SIZE as int) + 1,
                            i % (BOARD_SIZE as int) + 1,
                        ),
                decreases BOARD_SIZE + 1 - y,
            {
                let neighbors: [bool; 8] = [
                    self.get(x - 1, y - 1),
                    self.get(x - 1, y),
                    self.get(x - 1, y + 1),
                    self.get(x, y - 1),
                    self.get(x, y + 1),
                    self.get(x + 1, y - 1),
                    self.get(x + 1, y),
                    self.get(x + 1, y + 1),
                ];
                let alive = self.get(x, y);
                let v = next_state(alive, neighbors);
                proof {
                    lemma_cell_index(x as int, y as int);
                    assert(live_count8(neighbors@) == neighbor_count(g, x as int, y as int));
                    assert(v == next_cell(g, x as int, y as int));
                }
                next.push(v);
                y = y + 1;
            }
            x = x + 1;
        }
        proof {
            assert(next@ =~= next_grid(g));
        }
        self.cells = next;
    }
}

} // verus!
