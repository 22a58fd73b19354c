//! The text form of a grid: one line per row, one character per cell.

use crate::cell::Cell;
use crate::grid::{lemma_index_in_range, Grid};
use vstd::prelude::*;

verus! {

/// The character drawn for a dead cell: a space.
pub const DEAD_GLYPH: char = ' ';

/// The character drawn for a live cell: U+25FC, a black medium square.
pub const ALIVE_GLYPH: char = '\u{25FC}';

/// The character drawn for `cell`.
pub open spec fn glyph(cell: Cell) -> char {
    match cell {
        Cell::Dead => DEAD_GLYPH,
        Cell::Alive => ALIVE_GLYPH,
    }
}

/// A line of `width` times the character `fill`, ended by a newline.
pub open spec fn filled_line(fill: char, width: nat) -> Seq<char> {
    Seq::new(width, |c: int| fill).push('\n')
}

/// `rows` lines, each of `width` times the character `fill`.
pub open spec fn filled_lines(fill: char, width: nat, rows: nat) -> Seq<char>
    decreases rows,
{
    if rows == 0 {
        Seq::empty()
    } else {
        filled_lines(fill, width, (rows - 1) as nat) + filled_line(fill, width)
    }
}

impl Grid {
    /// The characters of the first `cols` cells of row `row`.
    pub open spec fn line_prefix(self, row: int, cols: nat) -> Seq<char> {
        Seq::new(cols, |c: int| glyph(self.cells[self.index(row, c)]))
    }

    /// The line of row `row`: the characters of its cells from left to right,
    /// then a newline.
    pub open spec fn line(self, row: int) -> Seq<char> {
        self.line_prefix(row, self.width).push('\n')
    }

    /// The lines of the first `rows` rows, from the top.
    pub open spec fn lines(self, rows: nat) -> Seq<char>
        decreases rows,
    {
        if rows == 0 {
            Seq::empty()
        } else {
            self.lines((rows - 1) as nat) + self.line(rows - 1)
        }
    }

    /// The whole grid as text: the lines of all its rows.
    pub open spec fn rendered(self) -> Seq<char> {
        self.lines(self.height)
    }
}

/// The lines of `rows` rows hold `width + 1` characters each.
pub proof fn lemma_lines_len(grid: Grid, rows: nat)
    ensures
        grid.lines(rows).len() == rows * (grid.width + 1),
    decreases rows,
{
    let stride = grid.width + 1;
    if rows > 0 {
        lemma_lines_len(grid, (rows - 1) as nat);
        assert(grid.line(rows - 1).len() == stride);
        assert(rows * stride == (rows - 1) * stride + stride) by (nonlinear_arith);
    } else {
        assert(rows * stride == 0) by (nonlinear_arith)
            requires
                rows == 0,
        ;
    }
}

/// Lines that are written stay as they are when more rows follow.
pub proof fn lemma_lines_extend(grid: Grid, rows: nat, more: nat)
    requires
        rows <= more,
    ensures
        grid.lines(rows) =~= grid.lines(more).take(grid.lines(rows).len() as int),
        grid.lines(rows).len() <= grid.lines(more).len(),
    decreases more,
{
    if rows < more {
        lemma_lines_extend(grid, rows, (more - 1) as nat);
    }
}

/// Where each character of the text stands: the cell of row `row` and column
/// `col` is drawn at position `row * (width + 1) + col`, and the newline of the
/// row follows its last cell. The text holds nothing else.
pub proof fn rendered_layout(grid: Grid, row: int, col: int)
    requires
        grid.wf(),
        0 <= row < grid.height,
        0 <= col <= grid.width,
    ensures
        grid.rendered().len() == grid.height * (grid.width + 1),
        0 <= row * (grid.width + 1) + col < grid.rendered().len(),
        grid.rendered()[row * (grid.width + 1) + col] == if col == grid.width {
            '\n'
        } else {
            glyph(grid.cells[grid.index(row, col)])
        },
{
    let stride = grid.width + 1;
    lemma_lines_len(grid, grid.height);
    lemma_lines_len(grid, row as nat);
    lemma_lines_len(grid, (row + 1) as nat);
    lemma_lines_extend(grid, (row + 1) as nat, grid.height);
    assert((row + 1) * stride == row * stride + stride) by (nonlinear_arith);
    let at = row * stride + col;
    assert(grid.lines((row + 1) as nat)[at] == grid.rendered()[at]);
    assert(grid.lines((row + 1) as nat) == grid.lines(row as nat) + grid.line(row));
    assert(grid.lines((row + 1) as nat)[at] == grid.line(row)[col]);
}

/// A grid whose cells are all in one state is drawn as `height` lines of
/// `width` times the character of that state: spaces for a dead grid, squares
/// for a live one.
pub proof fn uniform_grid_rendered(grid: Grid, cell: Cell)
    requires
        grid.wf(),
        forall|i: int| 0 <= i < grid.cells.len() ==> grid.cells[i] == cell,
    ensures
        grid.rendered() == filled_lines(glyph(cell), grid.width, grid.height),
{
    lemma_uniform_lines(grid, cell, grid.height);
}

proof fn lemma_uniform_lines(grid: Grid, cell: Cell, rows: nat)
    requires
        grid.wf(),
        rows <= grid.height,
        forall|i: int| 0 <= i < grid.cells.len() ==> grid.cells[i] == cell,
    ensures
        grid.lines(rows) == filled_lines(glyph(cell), grid.width, rows),
    decreases rows,
{
    if rows > 0 {
        lemma_uniform_lines(grid, cell, (rows - 1) as nat);
        let row = rows - 1;
        assert forall|c: int| 0 <= c < grid.width implies grid.cells[grid.index(row, c)]
            == cell by {
            lemma_index_in_range(grid, row, c);
        }
        assert(grid.line_prefix(row, grid.width) =~= Seq::new(grid.width, |c: int| glyph(cell)));
    }
}

} // verus!
