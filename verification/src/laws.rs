//! What holds of every grid: laws of the model, each proved once and for all.

use vstd::prelude::*;
use crate::cell::Cell;
use crate::grid::{lemma_wrap_offsets, Grid};

verus! {

/// A generation step keeps the dimensions of a grid and leaves it well formed.
pub proof fn lemma_step_keeps_dimensions(grid: Grid)
    requires
        grid.wf(),
    ensures
        grid.step().wf(),
        grid.step().width == grid.width,
        grid.step().height == grid.height,
        grid.step().cells.len() == grid.width * grid.height,
{
}

/// Any number of generation steps keeps the dimensions of a grid and leaves
/// it well formed.
pub proof fn lemma_after_keeps_dimensions(grid: Grid, generations: nat)
    requires
        grid.wf(),
    ensures
        grid.after(generations).wf(),
        grid.after(generations).width == grid.width,
        grid.after(generations).height == grid.height,
        grid.after(generations).cells.len() == grid.width * grid.height,
    decreases generations,
{
    if generations > 0 {
        lemma_after_keeps_dimensions(grid, (generations - 1) as nat);
        lemma_step_keeps_dimensions(grid.after((generations - 1) as nat));
    }
}

/// The cell of a well-formed grid at `(row, col)` is alive exactly when the
/// coordinate is one that `alive` names.
pub open spec fn alive_exactly_at(grid: Grid, alive: spec_fn(int, int) -> bool) -> bool {
    forall|row: int, col: int|
        grid.contains(row, col) ==> (#[trigger] grid.at(row, col) == Cell::Alive <==> alive(
            row,
            col,
        ))
}

/// On a grid of at least three rows and three columns whose only live cell
/// is the one at `(0, 0)`, that cell is counted as a neighbor of each of the
/// eight cells around it, also of those that lie across an edge: each of
/// them has exactly one live neighbor.
pub proof fn lemma_origin_counts_across_edges(grid: Grid)
    requires
        grid.wf(),
        grid.width >= 3,
        grid.height >= 3,
        alive_exactly_at(grid, |row: int, col: int| row == 0 && col == 0),
    ensures
        grid.live_neighbors(grid.height - 1, grid.width - 1) == 1,
        grid.live_neighbors(grid.height - 1, 0) == 1,
        grid.live_neighbors(grid.height - 1, 1) == 1,
        grid.live_neighbors(0, grid.width - 1) == 1,
        grid.live_neighbors(0, 1) == 1,
        grid.live_neighbors(1, grid.width - 1) == 1,
        grid.live_neighbors(1, 0) == 1,
        grid.live_neighbors(1, 1) == 1,
{
    let h = grid.height as int;
    let w = grid.width as int;
    lemma_wrap_offsets(h, h - 1);
    lemma_wrap_offsets(h, 0);
    lemma_wrap_offsets(h, 1);
    lemma_wrap_offsets(w, w - 1);
    lemma_wrap_offsets(w, 0);
    lemma_wrap_offsets(w, 1);
}

/// Whether `(row, col)` is one of the four cells of the block of two rows
/// and two columns whose upper left cell is `(top, left)`. The block may lie
/// across an edge of the grid.
pub open spec fn in_block(grid: Grid, top: int, left: int, row: int, col: int) -> bool {
    &&& row == top || row == grid.wrap_row(top, 1)
    &&& col == left || col == grid.wrap_col(left, 1)
}

/// A block of two by two live cells, alone on a grid of at least four rows
/// and four columns, is a still life: a generation step leaves the grid as it
/// is. Each cell of the block has three live neighbors and survives; no dead
/// cell has exactly three.
pub proof fn lemma_block_is_still_life(grid: Grid, top: int, left: int)
    requires
        grid.wf(),
        grid.width >= 4,
        grid.height >= 4,
        grid.contains(top, left),
        alive_exactly_at(grid, |row: int, col: int| in_block(grid, top, left, row, col)),
    ensures
        grid.step() == grid,
{
    let h = grid.height as int;
    let w = grid.width as int;
    lemma_wrap_offsets(h, top);
    lemma_wrap_offsets(w, left);
    assert forall|i: int| 0 <= i < grid.cells.len() implies grid.next_cell(i) == grid.cells[i] by {
        let row = i / w;
        let col = i % w;
        grid.lemma_position_is_coordinate(i);
        lemma_wrap_offsets(h, row);
        lemma_wrap_offsets(w, col);
        assert(grid.at(row, col) == grid.cells[i]);
    }
    assert(grid.step().cells =~= grid.cells);
}

/// Flipping the same cell twice gives the grid back.
pub proof fn lemma_toggle_twice_restores(grid: Grid, row: int, col: int)
    requires
        grid.wf(),
        grid.contains(row, col),
    ensures
        grid.toggled_at(row, col).toggled_at(row, col) == grid,
{
    grid.lemma_index_in_range(row, col);
    assert(grid.toggled_at(row, col).toggled_at(row, col).cells =~= grid.cells);
}

/// Flipping a cell changes that cell and no other: the grid keeps its
/// dimensions, and a position of the sequence of cells holds another state
/// than before exactly when it is the position of the flipped cell.
pub proof fn lemma_toggle_flips_one_cell(grid: Grid, row: int, col: int)
    requires
        grid.wf(),
        grid.contains(row, col),
    ensures
        grid.toggled_at(row, col).wf(),
        grid.toggled_at(row, col).width == grid.width,
        grid.toggled_at(row, col).height == grid.height,
        grid.toggled_at(row, col).at(row, col) == grid.at(row, col).toggled(),
        forall|i: int|
            0 <= i < grid.cells.len() ==> (#[trigger] grid.toggled_at(row, col).cells[i]
                != grid.cells[i] <==> i == grid.index(row, col)),
{
    grid.lemma_index_in_range(row, col);
}

/// Flipping a cell changes the text of the grid in exactly one place: the
/// text keeps its length, and a character differs from the one before
/// exactly when it is the glyph of the flipped cell.
pub proof fn lemma_toggle_changes_one_glyph(grid: Grid, row: int, col: int)
    requires
        grid.wf(),
        grid.contains(row, col),
    ensures
        grid.toggled_at(row, col).text().len() == grid.text().len(),
        forall|k: int|
            0 <= k < grid.text().len() ==> (#[trigger] grid.toggled_at(row, col).text()[k]
                != grid.text()[k] <==> k == row * (grid.width + 1) + col),
{
    let flipped = grid.toggled_at(row, col);
    let line = (grid.width + 1) as int;
    grid.lemma_index_in_range(row, col);
    assert forall|k: int| 0 <= k < grid.text().len() implies (#[trigger] flipped.text()[k]
        != grid.text()[k] <==> k == row * line + col) by {
        let r = k / line;
        let c = k % line;
        vstd::arithmetic::div_mod::lemma_fundamental_div_mod(k, line);
        vstd::arithmetic::div_mod::lemma_mod_bound(k, line);
        assert(line * r == r * line) by (nonlinear_arith);
        assert(0 <= r < grid.height) by (nonlinear_arith)
            requires
                0 <= k < grid.height * line,
                line > 0,
                k == r * line + c,
                0 <= c < line,
        ;
        if c < grid.width {
            grid.lemma_index_in_range(r, c);
            grid.lemma_index_row_col(r, c);
            grid.lemma_index_row_col(row, col);
        }
        if k == row * line + col {
            vstd::arithmetic::div_mod::lemma_fundamental_div_mod_converse(k, line, row, col);
        }
    }
}

/// A grid without a live cell stays as it is, however many generations
/// pass: no cell is born where nothing lives.
pub proof fn lemma_dead_grid_stays_dead(grid: Grid, generations: nat)
    requires
        grid.wf(),
        grid.all_dead(),
    ensures
        grid.after(generations) == grid,
        grid.after(generations).all_dead(),
    decreases generations,
{
    if generations > 0 {
        lemma_dead_grid_stays_dead(grid, (generations - 1) as nat);
        assert forall|i: int| 0 <= i < grid.cells.len() implies grid.next_cell(i)
            == Cell::Dead by {
            let row = i / (grid.width as int);
            let col = i % (grid.width as int);
            grid.lemma_position_is_coordinate(i);
            lemma_neighbors_of_dead_grid(grid, row, col);
        }
        assert(grid.step().cells =~= grid.cells);
    }
}

/// On a grid without a live cell no cell has a live neighbor.
pub proof fn lemma_neighbors_of_dead_grid(grid: Grid, row: int, col: int)
    requires
        grid.wf(),
        grid.all_dead(),
        grid.contains(row, col),
    ensures
        grid.live_neighbors(row, col) == 0,
{
    assert forall|delta_row: int, delta_col: int|
        0 <= delta_row && 0 <= delta_col implies #[trigger] grid.neighbor(
        row,
        col,
        delta_row,
        delta_col,
    ) == 0 by {
        grid.lemma_wrap_in_range(row, col, delta_row, delta_col);
        grid.lemma_index_in_range(
            grid.wrap_row(row, delta_row),
            grid.wrap_col(col, delta_col),
        );
    }
}

/// The grid that a constructor without a seed builds has no live cell, and
/// so it is the same grid after any number of generations.
pub proof fn lemma_empty_grid_stays_empty(width: nat, height: nat, generations: nat)
    requires
        width >= 1,
        height >= 1,
    ensures
        Grid::dead(width, height).wf(),
        Grid::dead(width, height).all_dead(),
        Grid::dead(width, height).after(generations) == Grid::dead(width, height),
{
    lemma_dead_grid_stays_dead(Grid::dead(width, height), generations);
}

} // verus!
