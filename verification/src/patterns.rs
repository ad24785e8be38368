//! How some classic seed patterns evolve: a lone cell dies, a 2-by-2 block
//! is a still life, and a three-cell blinker oscillates with period two.

use crate::board::{cell_at, neighbor_count, next_grid, valid_coord, BOARD_SIZE};
use crate::board::{lemma_grid_ext, lemma_next_grid_cell};
use vstd::prelude::*;

verus! {

/// A grid whose only live cell is at `(x0, y0)`.
pub open spec fn lone_cell(x0: int, y0: int, x: int, y: int) -> bool {
    x == x0 && y == y0
}

/// A 2-by-2 block of live cells whose top-left corner is at `(x0, y0)`.
pub open spec fn block(x0: int, y0: int, x: int, y: int) -> bool {
    (x == x0 || x == x0 + 1) && (y == y0 || y == y0 + 1)
}

/// A horizontal run of three live cells centered at `(x0, y0)`.
pub open spec fn horizontal_blinker(x0: int, y0: int, x: int, y: int) -> bool {
    x == x0 && y0 - 1 <= y <= y0 + 1
}

/// A vertical run of three live cells centered at `(x0, y0)`.
pub open spec fn vertical_blinker(x0: int, y0: int, x: int, y: int) -> bool {
    y == y0 && x0 - 1 <= x <= x0 + 1
}

/// A single live cell, having no live neighbors, dies of underpopulation,
/// and no dead cell gains enough neighbors to be born: one generation later
/// the grid is fully dead.
pub proof fn lemma_lone_cell_dies(g: Seq<bool>, x0: int, y0: int)
    requires
        g.len() == BOARD_SIZE * BOARD_SIZE,
        valid_coord(x0, y0),
        forall|x: int, y: int| cell_at(g, x, y) == lone_cell(x0, y0, x, y),
    ensures
        forall|x: int, y: int| !cell_at(next_grid(g), x, y),
{
    assert forall|x: int, y: int| !cell_at(next_grid(g), x, y) by {
        if valid_coord(x, y) {
            lemma_next_grid_cell(g, x, y);
            assert(neighbor_count(g, x, y) <= 1);
        }
    }
}

/// A 2-by-2 block of live cells is a still life: each of its cells has
/// exactly three live neighbors and survives, and every other cell has at
/// most two live neighbors and stays dead, so the next generation is the
/// same grid.
pub proof fn lemma_block_still_life(g: Seq<bool>, x0: int, y0: int)
    requires
        g.len() == BOARD_SIZE * BOARD_SIZE,
        valid_coord(x0, y0),
        valid_coord(x0 + 1, y0 + 1),
        forall|x: int, y: int| cell_at(g, x, y) == block(x0, y0, x, y),
    ensures
        next_grid(g) == g,
        forall|x: int, y: int| cell_at(next_grid(g), x, y) == cell_at(g, x, y),
{
    assert forall|x: int, y: int| cell_at(next_grid(g), x, y) == cell_at(g, x, y) by {
        if valid_coord(x, y) {
            lemma_next_grid_cell(g, x, y);
            if block(x0, y0, x, y) {
                assert(neighbor_count(g, x, y) == 3);
            } else {
                assert(neighbor_count(g, x, y) <= 2);
            }
        }
    }
    lemma_grid_ext(next_grid(g), g);
}

/// A horizontal blinker with a free row above and below becomes a vertical
/// blinker around the same center after one generation.
pub proof fn lemma_blinker_flips(g: Seq<bool>, x0: int, y0: int)
    requires
        g.len() == BOARD_SIZE * BOARD_SIZE,
        2 <= x0 <= BOARD_SIZE - 1,
        2 <= y0 <= BOARD_SIZE - 1,
        forall|x: int, y: int| cell_at(g, x, y) == horizontal_blinker(x0, y0, x, y),
    ensures
        forall|x: int, y: int| cell_at(next_grid(g), x, y) == vertical_blinker(x0, y0, x, y),
{
    assert forall|x: int, y: int| cell_at(next_grid(g), x, y) == vertical_blinker(
        x0,
        y0,
        x,
        y,
    ) by {
        if valid_coord(x, y) {
            lemma_next_grid_cell(g, x, y);
        }
    }
}

/// A vertical blinker with a free column on each side becomes a horizontal
/// blinker around the same center after one generation.
pub proof fn lemma_blinker_flips_back(g: Seq<bool>, x0: int, y0: int)
    requires
        g.len() == BOARD_SIZE * BOARD_SIZE,
        2 <= x0 <= BOARD_SIZE - 1,
        2 <= y0 <= BOARD_SIZE - 1,
        forall|x: int, y: int| cell_at(g, x, y) == vertical_blinker(x0, y0, x, y),
    ensures
        forall|x: int, y: int| cell_at(next_grid(g), x, y) == horizontal_blinker(x0, y0, x, y),
{
    assert forall|x: int, y: int| cell_at(next_grid(g), x, y) == horizontal_blinker(
        x0,
        y0,
        x,
        y,
    ) by {
        if valid_coord(x, y) {
            lemma_next_grid_cell(g, x, y);
        }
    }
}

/// A blinker oscillates with period two: two generations after a horizontal
/// blinker the grid is exactly the original grid again.
pub proof fn lemma_blinker_period_two(g: Seq<bool>, x0: int, y0: int)
    requires
        g.len() == BOARD_SIZE * BOARD_SIZE,
        2 <= x0 <= BOARD_SIZE - 1,
        2 <= y0 <= BOARD_SIZE - 1,
        forall|x: int, y: int| cell_at(g, x, y) == horizontal_blinker(x0, y0, x, y),
    ensures
        next_grid(next_grid(g)) == g,
{
    lemma_blinker_flips(g, x0, y0);
    lemma_blinker_flips_back(next_grid(g), x0, y0);
    lemma_grid_ext(next_grid(next_grid(g)), g);
}

} // verus!
