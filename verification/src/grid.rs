//! The mathematical model of a grid and of one generation step.
//!
//! Everything here is specification: a [`Grid`] is a width, a height and a
//! row-major sequence of cells, and the functions on it say what the engine
//! computes without saying how.

use vstd::prelude::*;
use crate::cell::Cell;

verus! {

/// A rectangular grid of cells whose edges wrap around.
///
/// The cell at `(row, col)` is stored at position `row * width + col`.
pub ghost struct Grid {
    pub width: nat,
    pub height: nat,
    pub cells: Seq<Cell>,
}

impl Grid {
    /// A grid is well formed when it has at least one row and one column and
    /// holds exactly one cell per coordinate.
    pub open spec fn wf(self) -> bool {
        &&& self.width >= 1
        &&& self.height >= 1
        &&& self.cells.len() == self.width * self.height
    }

    /// Whether `(row, col)` is a coordinate of this grid.
    pub open spec fn contains(self, row: int, col: int) -> bool {
        0 <= row < self.height && 0 <= col < self.width
    }

    /// The position of `(row, col)` in the row-major sequence of cells.
    pub open spec fn index(self, row: int, col: int) -> int {
        row * self.width + col
    }

    /// The cell at `(row, col)`.
    pub open spec fn at(self, row: int, col: int) -> Cell {
        self.cells[self.index(row, col)]
    }

    /// The row reached from `row` by going `delta` rows down, wrapping at the
    /// bottom edge.
    pub open spec fn wrap_row(self, row: int, delta: int) -> int {
        (row + delta) % (self.height as int)
    }

    /// The column reached from `col` by going `delta` columns right, wrapping
    /// at the right edge.
    pub open spec fn wrap_col(self, col: int, delta: int) -> int {
        (col + delta) % (self.width as int)
    }

    /// What the cell `delta_row` rows below and `delta_col` columns right of
    /// `(row, col)` adds to the neighbor count of `(row, col)`: 1 when it is
    /// alive, 0 when it is dead, and nothing at all for the offset `(0, 0)`,
    /// which is the cell itself.
    pub open spec fn neighbor(self, row: int, col: int, delta_row: int, delta_col: int) -> nat {
        if delta_row == 0 && delta_col == 0 {
            0
        } else {
            self.at(self.wrap_row(row, delta_row), self.wrap_col(col, delta_col)).population()
        }
    }

    /// The live cells among the three cells that lie `delta_row` rows below
    /// `(row, col)`: the one to the left, the one straight below and the one
    /// to the right. The column to the left is reached by going `width - 1`
    /// columns right, so that every offset is non-negative.
    pub open spec fn neighbors_in_row(self, row: int, col: int, delta_row: int) -> nat {
        self.neighbor(row, col, delta_row, self.width - 1)
            + self.neighbor(row, col, delta_row, 0)
            + self.neighbor(row, col, delta_row, 1)
    }

    /// The number of live cells around `(row, col)`: those in the row above,
    /// in the same row and in the row below. The row above is reached by
    /// going `height - 1` rows down, so that the top row has the bottom row
    /// above it.
    pub open spec fn live_neighbors(self, row: int, col: int) -> nat {
        self.neighbors_in_row(row, col, self.height - 1)
            + self.neighbors_in_row(row, col, 0)
            + self.neighbors_in_row(row, col, 1)
    }

    /// The state of the cell stored at position `i` after one generation.
    pub open spec fn next_cell(self, i: int) -> Cell {
        let row = i / (self.width as int);
        let col = i % (self.width as int);
        self.cells[i].next_state(self.live_neighbors(row, col))
    }

    /// The grid one generation later: every cell is replaced by what the
    /// transition rule gives for it in the current generation.
    pub open spec fn step(self) -> Grid {
        Grid {
            width: self.width,
            height: self.height,
            cells: Seq::new(self.cells.len(), |i: int| self.next_cell(i)),
        }
    }

    /// The grid of the given dimensions in which every cell is dead.
    pub open spec fn dead(width: nat, height: nat) -> Grid {
        Grid { width, height, cells: Seq::new(width * height, |i: int| Cell::Dead) }
    }

    /// Whether no cell of the grid is alive.
    pub open spec fn all_dead(self) -> bool {
        forall|i: int| 0 <= i < self.cells.len() ==> self.cells[i] == Cell::Dead
    }

    /// The grid in which the cells at the coordinates in `points` are alive
    /// and every other cell is as in `self`.
    pub open spec fn with_alive(self, points: Set<(int, int)>) -> Grid {
        Grid {
            width: self.width,
            height: self.height,
            cells: Seq::new(
                self.cells.len(),
                |i: int|
                    if points.contains((i / (self.width as int), i % (self.width as int))) {
                        Cell::Alive
                    } else {
                        self.cells[i]
                    },
            ),
        }
    }

    /// The grid in which the cell at `(row, col)` is flipped and every other
    /// cell is as in `self`.
    pub open spec fn toggled_at(self, row: int, col: int) -> Grid {
        Grid {
            width: self.width,
            height: self.height,
            cells: self.cells.update(self.index(row, col), self.at(row, col).toggled()),
        }
    }

    /// The grid after `n` generations.
    pub open spec fn after(self, n: nat) -> Grid
        decreases n,
    {
        if n == 0 {
            self
        } else {
            self.after((n - 1) as nat).step()
        }
    }

    /// The character at position `k` of the text of the grid. Each row takes
    /// `width + 1` characters: one glyph per cell, then a line break.
    pub open spec fn text_char(self, k: int) -> char {
        let row = k / (self.width + 1) as int;
        let col = k % (self.width + 1) as int;
        if col == self.width {
            '\n'
        } else {
            glyph(self.at(row, col))
        }
    }

    /// The grid as text: the rows from top to bottom, each as the glyphs of
    /// its cells from left to right, followed by a line break.
    pub open spec fn text(self) -> Seq<char> {
        Seq::new(self.height * (self.width + 1), |k: int| self.text_char(k))
    }

    /// A coordinate of the grid is stored at a position of the sequence of cells.
    pub proof fn lemma_index_in_range(self, row: int, col: int)
        requires
            self.wf(),
            self.contains(row, col),
        ensures
            0 <= self.index(row, col) < self.cells.len(),
    {
        assert(0 <= row * self.width + col < self.width * self.height) by (nonlinear_arith)
            requires
                0 <= row < self.height,
                0 <= col < self.width,
        ;
    }

    /// The row and the column of a coordinate are the quotient and the
    /// remainder of its position by the width.
    pub proof fn lemma_index_row_col(self, row: int, col: int)
        requires
            self.wf(),
            self.contains(row, col),
        ensures
            self.index(row, col) / (self.width as int) == row,
            self.index(row, col) % (self.width as int) == col,
    {
        vstd::arithmetic::div_mod::lemma_fundamental_div_mod_converse(
            self.index(row, col),
            self.width as int,
            row,
            col,
        );
    }

    /// Every position of the sequence of cells is that of exactly one
    /// coordinate of the grid.
    pub proof fn lemma_position_is_coordinate(self, i: int)
        requires
            self.wf(),
            0 <= i < self.cells.len(),
        ensures
            self.contains(i / (self.width as int), i % (self.width as int)),
            self.index(i / (self.width as int), i % (self.width as int)) == i,
    {
        let w = self.width as int;
        let h = self.height as int;
        vstd::arithmetic::div_mod::lemma_fundamental_div_mod(i, w);
        vstd::arithmetic::div_mod::lemma_mod_bound(i, w);
        assert(w * (i / w) == (i / w) * w) by (nonlinear_arith);
        assert(0 <= i / w < h) by (nonlinear_arith)
            requires
                0 <= i < w * h,
                w > 0,
                i == (i / w) * w + i % w,
                0 <= i % w < w,
        ;
    }

    /// Going a non-negative number of rows down and columns right from a
    /// coordinate of the grid ends on a coordinate of the grid.
    pub proof fn lemma_wrap_in_range(self, row: int, col: int, delta_row: int, delta_col: int)
        requires
            self.wf(),
            0 <= row + delta_row,
            0 <= col + delta_col,
        ensures
            self.contains(self.wrap_row(row, delta_row), self.wrap_col(col, delta_col)),
    {
        vstd::arithmetic::div_mod::lemma_mod_bound(row + delta_row, self.height as int);
        vstd::arithmetic::div_mod::lemma_mod_bound(col + delta_col, self.width as int);
    }
}

/// Where the three offsets of the neighbor count lead on an axis of `size`
/// places: `size - 1` leads one place back and from the first place to the
/// last, `0` stays, and `1` leads one place on and from the last place to
/// the first.
pub proof fn lemma_wrap_offsets(size: int, place: int)
    requires
        size >= 1,
        0 <= place < size,
    ensures
        (place + (size - 1)) % size == if place == 0 {
            size - 1
        } else {
            place - 1
        },
        (place + 0) % size == place,
        (place + 1) % size == if place == size - 1 {
            0
        } else {
            place + 1
        },
{
    if place == 0 {
        vstd::arithmetic::div_mod::lemma_fundamental_div_mod_converse(
            place + (size - 1),
            size,
            0,
            size - 1,
        );
    } else {
        vstd::arithmetic::div_mod::lemma_fundamental_div_mod_converse(
            place + (size - 1),
            size,
            1,
            place - 1,
        );
    }
    vstd::arithmetic::div_mod::lemma_fundamental_div_mod_converse(place, size, 0, place);
    if place == size - 1 {
        vstd::arithmetic::div_mod::lemma_fundamental_div_mod_converse(place + 1, size, 1, 0);
    } else {
        vstd::arithmetic::div_mod::lemma_fundamental_div_mod_converse(
            place + 1,
            size,
            0,
            place + 1,
        );
    }
}

/// The glyph that stands for a cell in the text of a grid.
pub open spec fn glyph(cell: Cell) -> char {
    match cell {
        Cell::Dead => '\u{25FB}',
        Cell::Alive => '\u{25FC}',
    }
}

/// The coordinates of the pattern that a seeded grid starts with: a glider.
pub open spec fn glider() -> Set<(int, int)> {
    set![(1, 2), (2, 3), (3, 1), (3, 2), (3, 3)]
}

/// The coordinates named by a list of `(row, col)` pairs.
pub open spec fn coordinates(points: Seq<(u32, u32)>) -> Set<(int, int)> {
    Set::new(
        |p: (int, int)|
            exists|k: int|
                0 <= k < points.len() && p == (#[trigger] points[k].0 as int, points[k].1 as int),
    )
}

} // verus!
