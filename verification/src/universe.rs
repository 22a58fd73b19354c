//! The universe: the owner of the cell buffer, and the operations on it.

use crate::cell::Cell;
use crate::grid::{
    lemma_index_in_range, lemma_live_neighbors_on_rings, Grid,
};
use crate::render::{glyph, ALIVE_GLYPH, DEAD_GLYPH};
use crate::seed::{cell_of_seed, next_seed, seed_cell, seed_state, seeded_cells};
use vstd::prelude::*;

verus! {

/// A grid of cells with fixed dimensions, advanced one generation at a time.
pub struct Universe {
    width: usize,
    height: usize,
    cells: Vec<Cell>,
}

impl View for Universe {
    type V = Grid;

    closed spec fn view(&self) -> Grid {
        Grid { width: self.width as nat, height: self.height as nat, cells: self.cells@ }
    }
}

/// The number of columns of a universe made by [`Universe::new`].
pub const DEFAULT_WIDTH: usize = 256;

/// The number of rows of a universe made by [`Universe::new`].
pub const DEFAULT_HEIGHT: usize = 128;

/// The first generation of a universe made by [`Universe::new`].
pub open spec fn initial_grid() -> Grid {
    Grid {
        width: DEFAULT_WIDTH as nat,
        height: DEFAULT_HEIGHT as nat,
        cells: seeded_cells((DEFAULT_WIDTH * DEFAULT_HEIGHT) as nat),
    }
}

/// The first generation has 256 columns and 128 rows, and one seeded cell for
/// each of its positions.
pub proof fn initial_grid_dimensions()
    ensures
        initial_grid().wf(),
        initial_grid().width == 256,
        initial_grid().height == 128,
        initial_grid().cells.len() == 256 * 128,
        forall|i: int|
            0 <= i < 256 * 128 ==> #[trigger] initial_grid().cells[i] == seed_cell(
                seed_state((i + 1) as nat),
            ),
{
}

/// Construction is deterministic: two universes that each come fresh from
/// [`Universe::new`] have the same dimensions and the same cells.
pub proof fn construction_is_deterministic(first: Universe, second: Universe)
    requires
        first@ == initial_grid(),
        second@ == initial_grid(),
    ensures
        first@ == second@,
        first@.cells == second@.cells,
{
}

impl Universe {
    #[verifier::type_invariant]
    spec fn inv(self) -> bool {
        self@.wf()
    }

    /// A universe of 256 columns and 128 rows, seeded by the deterministic
    /// sequence: the same cells on every call.
    pub fn new() -> (universe: Universe)
        ensures
            universe@ == initial_grid(),
            universe@.wf(),
            universe@.width == 256,
            universe@.height == 128,
    {
        let width: usize = DEFAULT_WIDTH;
        let height: usize = DEFAULT_HEIGHT;
        let len: usize = width * height;
        let mut k: u128 = 1;
        let mut cells: Vec<Cell> = Vec::with_capacity(len);
        let mut i: usize = 0;
        while i < len
            invariant
                i <= len,
                k == seed_state(i as nat),
                cells@ == seeded_cells(i as nat),
            decreases len - i,
        {
            k = next_seed(k);
            cells.push(cell_of_seed(k));
            i += 1;
            assert(cells@ =~= seeded_cells(i as nat));
        }
        Universe { width, height, cells }
    }

    /// A universe of `width` columns and `height` rows that holds `cells`, row
    /// by row. `None` if a dimension is zero or `cells` does not hold exactly
    /// one cell per position.
    pub fn from_cells(width: usize, height: usize, cells: Vec<Cell>) -> (made: Option<Universe>)
        ensures
            made is Some <==> width > 0 && height > 0 && cells@.len() == width * height,
            made matches Some(universe) ==> universe@ == (Grid {
                width: width as nat,
                height: height as nat,
                cells: cells@,
            }) && universe@.wf(),
    {
        if width == 0 || height == 0 {
            return None;
        }
        assert(cells@.len() == cells.len());
        match width.checked_mul(height) {
            Some(len) => {
                if cells.len() == len {
                    Some(Universe { width, height, cells })
                } else {
                    None
                }
            },
            None => None,
        }
    }

    /// The position in the buffer of row `row`, column `column`.
    fn get_index(&self, row: usize, column: usize) -> (idx: usize)
        requires
            row < self@.height,
            column < self@.width,
        ensures
            idx == self@.index(row as int, column as int),
            idx < self@.cells.len(),
    {
        proof {
            use_type_invariant(self);
            lemma_index_in_range(self@, row as int, column as int);
            assert(self@.index(row as int, column as int) == row * self.width + column);
            assert(0 <= row * self.width) by (nonlinear_arith);
            assert(self.cells@.len() == self.cells.len());
        }
        row * self.width + column
    }

    /// `1` if the cell at row `row`, column `col` is alive, else `0`.
    fn population(&self, row: usize, col: usize) -> (n: usize)
        requires
            row < self@.height,
            col < self@.width,
        ensures
            n == self@.population_at((row as int, col as int)),
            n <= 1,
    {
        let idx = self.get_index(row, col);
        if self.cells[idx].is_alive() {
            1
        } else {
            0
        }
    }

    /// Counts the live cells among the eight neighbours of row `row`, column
    /// `col`, going around the edges of the grid.
    pub fn live_neighbor_count(&self, row: usize, col: usize) -> (count: usize)
        ensures
            count == self@.live_neighbors(row as int, col as int),
            count <= 8,
    {
        proof {
            use_type_invariant(self);
        }
        let here_row = row % self.height;
        let here_col = col % self.width;
        let above = if here_row == 0 {
            self.height - 1
        } else {
            here_row - 1
        };
        let below = if here_row == self.height - 1 {
            0
        } else {
            here_row + 1
        };
        let left = if here_col == 0 {
            self.width - 1
        } else {
            here_col - 1
        };
        let right = if here_col == self.width - 1 {
            0
        } else {
            here_col + 1
        };
        proof {
            lemma_live_neighbors_on_rings(self@, row as int, col as int);
        }
        let mut count: usize = 0;
        count += self.population(above, left);
        count += self.population(above, here_col);
        count += self.population(above, right);
        count += self.population(here_row, left);
        count += self.population(here_row, right);
        count += self.population(below, left);
        count += self.population(below, here_col);
        count += self.population(below, right);
        count
    }

    /// Advances the universe by one generation. Every cell of the new
    /// generation is decided from the generation before the call; the new
    /// buffer replaces the old one when all of it has been computed.
    pub fn tick(&mut self)
        ensures
            final(self)@ == old(self)@.step(),
            final(self)@.wf(),
    {
        proof {
            use_type_invariant(&*self);
        }
        let mut next: Vec<Cell> = Vec::with_capacity(self.cells.len());
        let mut row: usize = 0;
        while row < self.height
            invariant
                *self == *old(self),
                self@.wf(),
                row <= self.height,
                next@.len() == row * self.width,
                forall|i: int| 0 <= i < next@.len() ==> next@[i] == self@.next_cell(i),
            decreases self.height - row,
        {
            let mut col: usize = 0;
            while col < self.width
                invariant
                    *self == *old(self),
                    self@.wf(),
                    row < self.height,
                    col <= self.width,
                    next@.len() == row * self.width + col,
                    forall|i: int| 0 <= i < next@.len() ==> next@[i] == self@.next_cell(i),
                decreases self.width - col,
            {
                let idx = self.get_index(row, col);
                let cell = self.cells[idx];
                let live_neighbors = self.live_neighbor_count(row, col);
                proof {
                    lemma_index_in_range(self@, row as int, col as int);
                }
                next.push(cell.next(live_neighbors));
                col += 1;
            }
            row += 1;
            assert(next@.len() == row * self.width) by (nonlinear_arith)
                requires
                    next@.len() == (row - 1) * self.width + self.width,
            ;
        }
        assert(next@.len() == self@.cells.len()) by (nonlinear_arith)
            requires
                next@.len() == row * self.width,
                row == self.height,
                self@.cells.len() == self.width * self.height,
        ;
        assert(next@ =~= self@.step().cells);
        self.cells = next;
    }

    /// The universe as text: one line per row from the top, each holding one
    /// character per cell from the left, a space for a dead cell and a square
    /// for a live one, and ended by a newline.
    pub fn render(&self) -> (text: String)
        ensures
            text@ == self@.rendered(),
    {
        proof {
            use_type_invariant(self);
        }
        let mut text = String::new();
        let mut row: usize = 0;
        while row < self.height
            invariant
                self@.wf(),
                row <= self.height,
                text@ == self@.lines(row as nat),
            decreases self.height - row,
        {
            let mut col: usize = 0;
            while col < self.width
                invariant
                    self@.wf(),
                    row < self.height,
                    col <= self.width,
                    text@ == self@.lines(row as nat) + self@.line_prefix(row as int, col as nat),
                decreases self.width - col,
            {
                let idx = self.get_index(row, col);
                let ghost before = text@;
                if self.cells[idx].is_alive() {
                    proof {
                        reveal_strlit("\u{25FC}");
                    }
                    text.append("\u{25FC}");
                    assert(text@ =~= before.push(ALIVE_GLYPH));
                } else {
                    proof {
                        reveal_strlit(" ");
                    }
                    text.append(" ");
                    assert(text@ =~= before.push(DEAD_GLYPH));
                }
                col += 1;
                assert(self@.line_prefix(row as int, col as nat) =~= self@.line_prefix(
                    row as int,
                    (col - 1) as nat,
                ).push(glyph(self.cells@[idx as int])));
            }
            proof {
                reveal_strlit("\n");
            }
            let ghost before = text@;
            text.append("\n");
            assert(text@ =~= before.push('\n'));
            row += 1;
        }
        text
    }

    /// The number of columns.
    pub fn width(&self) -> (width: usize)
        ensures
            width == self@.width,
            self@.wf(),
    {
        proof {
            use_type_invariant(self);
        }
        self.width
    }

    /// The number of rows.
    pub fn height(&self) -> (height: usize)
        ensures
            height == self@.height,
            self@.wf(),
    {
        proof {
            use_type_invariant(self);
        }
        self.height
    }

    /// The cells, row by row. The slice borrows the universe, so it cannot be
    /// held across a call of [`Universe::tick`].
    pub fn cells(&self) -> (cells: &[Cell])
        ensures
            cells@ == self@.cells,
            cells@.len() == self@.width * self@.height,
    {
        proof {
            use_type_invariant(self);
        }
        self.cells.as_slice()
    }
}

} // verus!
