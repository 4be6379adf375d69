//! The executable engine: a grid of cells that advances one generation at a
//! time.

use vstd::prelude::*;
use crate::cell::Cell;
use crate::error::GridError;
use crate::grid::{coordinates, glider, glyph, Grid};
use vstd::string::*;

verus! {

/// A toroidal grid of cells. Its dimensions are fixed when it is built.
pub struct Universe {
    width: u32,
    height: u32,
    cells: Vec<Cell>,
}

impl View for Universe {
    type V = Grid;

    closed spec fn view(&self) -> Grid {
        Grid { width: self.width as nat, height: self.height as nat, cells: self.cells@ }
    }
}

/// The neighbors counted once the first `rows` of the three rows around
/// `(row, col)` are done: the row above, the same row, the row below.
spec fn rows_counted(grid: Grid, row: int, col: int, rows: int) -> nat {
    (if rows > 0 {
        grid.neighbors_in_row(row, col, grid.height - 1)
    } else {
        0
    }) + (if rows > 1 {
        grid.neighbors_in_row(row, col, 0)
    } else {
        0
    }) + (if rows > 2 {
        grid.neighbors_in_row(row, col, 1)
    } else {
        0
    })
}

/// The neighbors counted once the first `cols` of the three cells that lie
/// `delta_row` rows below `(row, col)` are done: left, middle, right.
spec fn cols_counted(grid: Grid, row: int, col: int, delta_row: int, cols: int) -> nat {
    (if cols > 0 {
        grid.neighbor(row, col, delta_row, grid.width - 1)
    } else {
        0
    }) + (if cols > 1 {
        grid.neighbor(row, col, delta_row, 0)
    } else {
        0
    }) + (if cols > 2 {
        grid.neighbor(row, col, delta_row, 1)
    } else {
        0
    })
}

/// Why no grid of these dimensions can be built, if anything stands against it.
pub open spec fn dimension_error(width: u32, height: u32) -> Option<GridError> {
    if width == 0 || height == 0 {
        Some(GridError::ZeroDimension)
    } else if width * height > u32::MAX {
        Some(GridError::TooLarge)
    } else {
        None
    }
}

/// Why no seeded grid of these dimensions can be built from `cells` initial
/// cells, if anything stands against it.
pub open spec fn seed_error(width: u32, height: u32, cells: nat) -> Option<GridError> {
    if dimension_error(width, height) is Some {
        dimension_error(width, height)
    } else if cells != width * height {
        Some(GridError::SeedLength)
    } else if width < 4 || height < 4 {
        Some(GridError::PatternOutOfBounds)
    } else {
        None
    }
}

impl Universe {
    #[verifier::type_invariant]
    spec fn inv(self) -> bool {
        &&& self@.wf()
        &&& self.width * self.height <= u32::MAX
    }

    /// Builds a grid whose cells start as `seed` gives them, row by row, and
    /// then makes the cells of a glider alive: `(1, 2)`, `(2, 3)`, `(3, 1)`,
    /// `(3, 2)` and `(3, 3)`.
    ///
    /// The caller decides how `seed` is drawn; the engine itself draws nothing.
    pub fn new(width: u32, height: u32, seed: Vec<Cell>) -> (result: Result<Universe, GridError>)
        ensures
            match result {
                Ok(universe) => {
                    &&& seed_error(width, height, seed@.len()) is None
                    &&& universe@ == (Grid {
                        width: width as nat,
                        height: height as nat,
                        cells: seed@,
                    }).with_alive(glider())
                    &&& universe@.wf()
                },
                Err(error) => seed_error(width, height, seed@.len()) == Some(error),
            },
    {
        let count = match Self::cell_count(width, height) {
            Ok(count) => count,
            Err(error) => {
                return Err(error);
            },
        };
        if seed.len() != count {
            return Err(GridError::SeedLength);
        }
        if width < 4 || height < 4 {
            return Err(GridError::PatternOutOfBounds);
        }
        let mut universe = Universe { width, height, cells: seed };
        let spaceship: [(u32, u32); 5] = [(1, 2), (2, 3), (3, 1), (3, 2), (3, 3)];
        universe.set_cells(spaceship.as_slice());
        proof {
            assert(spaceship@.len() == 5);
            assert(spaceship@[0].0 == 1 && spaceship@[0].1 == 2);
            assert(spaceship@[1].0 == 2 && spaceship@[1].1 == 3);
            assert(spaceship@[2].0 == 3 && spaceship@[2].1 == 1);
            assert(spaceship@[3].0 == 3 && spaceship@[3].1 == 2);
            assert(spaceship@[4].0 == 3 && spaceship@[4].1 == 3);
            assert(coordinates(spaceship@) =~= glider());
        }
        Ok(universe)
    }

    /// Builds a grid in which every cell is dead.
    pub fn new_empty(width: u32, height: u32) -> (result: Result<Universe, GridError>)
        ensures
            match result {
                Ok(universe) => {
                    &&& dimension_error(width, height) is None
                    &&& universe@ == Grid::dead(width as nat, height as nat)
                    &&& universe@.wf()
                },
                Err(error) => dimension_error(width, height) == Some(error),
            },
    {
        let count = match Self::cell_count(width, height) {
            Ok(count) => count,
            Err(error) => {
                return Err(error);
            },
        };
        let cells = vec![Cell::Dead; count];
        proof {
            assert(cells@ =~= Grid::dead(width as nat, height as nat).cells);
        }
        Ok(Universe { width, height, cells })
    }

    /// The number of cells of a grid of the given dimensions, or why there is
    /// no such grid.
    pub fn cell_count(width: u32, height: u32) -> (result: Result<usize, GridError>)
        ensures
            match result {
                Ok(count) => dimension_error(width, height) is None && count == width * height,
                Err(error) => dimension_error(width, height) == Some(error),
            },
    {
        if width == 0 || height == 0 {
            return Err(GridError::ZeroDimension);
        }
        assert(width * height <= 0xFFFF_FFFE_0000_0001) by (nonlinear_arith)
            requires
                width <= 0xFFFF_FFFF,
                height <= 0xFFFF_FFFF,
        ;
        let count: u64 = (width as u64) * (height as u64);
        if count > u32::MAX as u64 {
            return Err(GridError::TooLarge);
        }
        Ok(count as usize)
    }

    /// Makes the cells at the given coordinates alive and leaves the others
    /// as they are.
    fn set_cells(&mut self, cells: &[(u32, u32)])
        requires
            forall|k: int|
                0 <= k < cells@.len() ==> old(self)@.contains(
                    (#[trigger] cells@[k]).0 as int,
                    cells@[k].1 as int,
                ),
        ensures
            final(self)@ == old(self)@.with_alive(coordinates(cells@)),
    {
        proof {
            use_type_invariant(&*self);
            assert(self@.cells =~= self@.with_alive(coordinates(cells@.take(0))).cells);
        }
        let mut k: usize = 0;
        while k < cells.len()
            invariant
                self@.wf(),
                old(self)@.wf(),
                self.width * self.height <= u32::MAX,
                self.width == old(self).width,
                self.height == old(self).height,
                k <= cells@.len(),
                forall|k: int|
                    0 <= k < cells@.len() ==> self@.contains(
                        (#[trigger] cells@[k]).0 as int,
                        cells@[k].1 as int,
                    ),
                self@ == old(self)@.with_alive(coordinates(cells@.take(k as int))),
            decreases cells@.len() - k,
        {
            let (row, col) = cells[k];
            let i = self.index(row, col);
            let ghost before = self@;
            self.cells[i] = Cell::Alive;
            proof {
                let done = coordinates(cells@.take(k as int));
                let more = coordinates(cells@.take(k + 1));
                let grid = old(self)@;
                assert forall|p: int| 0 <= p < grid.cells.len() implies #[trigger] self@.cells[p]
                    == grid.with_alive(more).cells[p] by {
                    let at = (p / (grid.width as int), p % (grid.width as int));
                    grid.lemma_position_is_coordinate(p);
                    grid.lemma_index_row_col(row as int, col as int);
                    assert(cells@.take(k + 1)[k as int] == cells@[k as int]);
                    if p == i {
                        assert(more.contains(at));
                    } else {
                        assert(self@.cells[p] == before.cells[p]);
                        if more.contains(at) {
                            let j = choose|j: int|
                                0 <= j < cells@.take(k + 1).len() && at == (
                                    #[trigger] cells@.take(k + 1)[j].0 as int,
                                    cells@.take(k + 1)[j].1 as int,
                                );
                            assert(j < k);
                            assert(cells@.take(k as int)[j] == cells@.take(k + 1)[j]);
                            assert(done.contains(at));
                        }
                        if done.contains(at) {
                            let j = choose|j: int|
                                0 <= j < cells@.take(k as int).len() && at == (
                                    #[trigger] cells@.take(k as int)[j].0 as int,
                                    cells@.take(k as int)[j].1 as int,
                                );
                            assert(cells@.take(k as int)[j] == cells@.take(k + 1)[j]);
                            assert(more.contains(at));
                        }
                    }
                }
                assert(self@.cells =~= grid.with_alive(more).cells);
            }
            k += 1;
        }
        proof {
            assert(cells@.take(cells@.len() as int) =~= cells@);
        }
    }

    /// The number of columns.
    pub fn width(&self) -> (width: u32)
        ensures
            width == self@.width,
            self@.wf(),
    {
        proof {
            use_type_invariant(self);
        }
        self.width
    }

    /// The number of rows.
    pub fn height(&self) -> (height: u32)
        ensures
            height == self@.height,
            self@.wf(),
    {
        proof {
            use_type_invariant(self);
        }
        self.height
    }

    /// The position of `(row, col)` in the row-major storage.
    pub fn index(&self, row: u32, col: u32) -> (i: usize)
        requires
            self@.contains(row as int, col as int),
        ensures
            i == self@.index(row as int, col as int),
            i < self@.cells.len(),
    {
        proof {
            use_type_invariant(self);
            self@.lemma_index_in_range(row as int, col as int);
        }
        (row * self.width + col) as usize
    }

    /// Counts the live cells among the eight neighbors of `(row, col)`, where
    /// the grid wraps around at its edges.
    pub fn live_neighbors(&self, row: u32, col: u32) -> (count: u8)
        requires
            self@.contains(row as int, col as int),
        ensures
            count == self@.live_neighbors(row as int, col as int),
    {
        proof {
            use_type_invariant(self);
        }
        let row_deltas: [u32; 3] = [self.height - 1, 0, 1];
        let col_deltas: [u32; 3] = [self.width - 1, 0, 1];
        let mut count: u8 = 0;
        let mut i: usize = 0;
        while i < 3
            invariant
                self@.wf(),
                self@.contains(row as int, col as int),
                self.width * self.height <= u32::MAX,
                row_deltas@ == seq![(self.height - 1) as u32, 0u32, 1u32],
                col_deltas@ == seq![(self.width - 1) as u32, 0u32, 1u32],
                i <= 3,
                count <= 3 * i,
                count == rows_counted(self@, row as int, col as int, i as int),
            decreases 3 - i,
        {
            let delta_row = row_deltas[i];
            let ghost before = count;
            let mut j: usize = 0;
            while j < 3
                invariant
                    self@.wf(),
                    self@.contains(row as int, col as int),
                    self.width * self.height <= u32::MAX,
                    col_deltas@ == seq![(self.width - 1) as u32, 0u32, 1u32],
                    0 <= delta_row < self@.height || delta_row == 1,
                    j <= 3,
                    before <= 3 * i,
                    i < 3,
                    count == before + cols_counted(
                        self@,
                        row as int,
                        col as int,
                        delta_row as int,
                        j as int,
                    ),
                    count <= before + j,
                decreases 3 - j,
            {
                let delta_col = col_deltas[j];
                if !(delta_row == 0 && delta_col == 0) {
                    let neighbor_row = ((row as u64 + delta_row as u64) % (self.height as u64)) as u32;
                    let neighbor_col = ((col as u64 + delta_col as u64) % (self.width as u64)) as u32;
                    proof {
                        self@.lemma_wrap_in_range(
                            row as int,
                            col as int,
                            delta_row as int,
                            delta_col as int,
                        );
                    }
                    let idx = self.index(neighbor_row, neighbor_col);
                    count += self.cells[idx].count();
                }
                j += 1;
            }
            i += 1;
        }
        count
    }

    /// The cells in row-major order: the cell at `(row, col)` is at position
    /// `row * width + col`. The borrow ends before the grid can change again.
    pub fn cells(&self) -> (cells: &[Cell])
        ensures
            cells@ == self@.cells,
            self@.wf(),
    {
        proof {
            use_type_invariant(self);
        }
        self.cells.as_slice()
    }

    /// The grid as text: one line per row from top to bottom, one glyph per
    /// cell from left to right, a filled square for a live cell and a hollow
    /// one for a dead cell, and a line break after each row.
    pub fn render(&self) -> (text: String)
        ensures
            text@ == self@.text(),
            self@.wf(),
    {
        proof {
            use_type_invariant(self);
            reveal_strlit("\u{25FB}");
            reveal_strlit("\u{25FC}");
            reveal_strlit("\n");
        }
        let ghost line = self@.width + 1;
        let mut text = String::new();
        let mut row: u32 = 0;
        while row < self.height
            invariant
                self@.wf(),
                self.width * self.height <= u32::MAX,
                line == self@.width + 1,
                "\u{25FB}"@ == seq!['\u{25FB}'],
                "\u{25FC}"@ == seq!['\u{25FC}'],
                "\n"@ == seq!['\n'],
                row <= self.height,
                text@.len() == row * line,
                forall|k: int| 0 <= k < text@.len() ==> text@[k] == self@.text_char(k),
            decreases self.height - row,
        {
            let mut col: u32 = 0;
            while col < self.width
                invariant
                    self@.wf(),
                    self.width * self.height <= u32::MAX,
                    line == self@.width + 1,
                    "\u{25FB}"@ == seq!['\u{25FB}'],
                    "\u{25FC}"@ == seq!['\u{25FC}'],
                    row < self.height,
                    col <= self.width,
                    text@.len() == row * line + col,
                    forall|k: int| 0 <= k < text@.len() ==> text@[k] == self@.text_char(k),
                decreases self.width - col,
            {
                let cell = self.cells[self.index(row, col)];
                proof {
                    vstd::arithmetic::div_mod::lemma_fundamental_div_mod_converse(
                        row * line + col,
                        line as int,
                        row as int,
                        col as int,
                    );
                    assert(self@.text_char(row * line + col) == glyph(cell));
                }
                match cell {
                    Cell::Dead => text.append("\u{25FB}"),
                    Cell::Alive => text.append("\u{25FC}"),
                }
                col += 1;
            }
            proof {
                vstd::arithmetic::div_mod::lemma_fundamental_div_mod_converse(
                    row * line + col,
                    line as int,
                    row as int,
                    col as int,
                );
                assert(row * line + line == (row + 1) * line) by (nonlinear_arith);
            }
            text.append("\n");
            row += 1;
        }
        proof {
            assert(text@ =~= self@.text());
        }
        text
    }

    /// Advances the grid by one generation. Every cell is judged by the
    /// generation before the call, never by a neighbor that has already been
    /// replaced.
    pub fn tick(&mut self)
        ensures
            final(self)@ == old(self)@.step(),
            final(self)@.wf(),
            final(self)@.width == old(self)@.width,
            final(self)@.height == old(self)@.height,
    {
        proof {
            use_type_invariant(&*self);
        }
        let mut next = self.cells.clone();
        let mut row: u32 = 0;
        while row < self.height
            invariant
                self@.wf(),
                self.width * self.height <= u32::MAX,
                *self == *old(self),
                next@.len() == self@.cells.len(),
                row <= self.height,
                forall|k: int| 0 <= k < row * self.width ==> next@[k] == self@.next_cell(k),
            decreases self.height - row,
        {
            let mut col: u32 = 0;
            while col < self.width
                invariant
                    self@.wf(),
                    self.width * self.height <= u32::MAX,
                    *self == *old(self),
                    next@.len() == self@.cells.len(),
                    row < self.height,
                    col <= self.width,
                    forall|k: int|
                        0 <= k < row * self.width + col ==> next@[k] == self@.next_cell(k),
                decreases self.width - col,
            {
                let idx = self.index(row, col);
                let cell = self.cells[idx];
                let next_cell = cell.next(self.live_neighbors(row, col));
                proof {
                    self@.lemma_index_row_col(row as int, col as int);
                }
                next.set(idx, next_cell);
                col += 1;
            }
            proof {
                assert(row * self.width + self.width == (row + 1) * self.width)
                    by (nonlinear_arith);
            }
            row += 1;
        }
        proof {
            assert(self.height * self.width == self.width * self.height) by (nonlinear_arith);
            assert(next@ =~= self@.step().cells);
        }
        self.cells = next;
    }

    /// Flips the cell at `(row, col)` and leaves every other cell as it is.
    pub fn toggle_cell(&mut self, row: u32, col: u32)
        requires
            old(self)@.contains(row as int, col as int),
        ensures
            final(self)@ == old(self)@.toggled_at(row as int, col as int),
            final(self)@.wf(),
            final(self)@.width == old(self)@.width,
            final(self)@.height == old(self)@.height,
    {
        proof {
            use_type_invariant(&*self);
        }
        let idx = self.index(row, col);
        self.cells[idx].toggle();
    }
}

} // verus!
