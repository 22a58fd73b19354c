//! The mathematical model of the grid: a torus of cells stored row by row,
//! and the function that takes one generation to the next.

use crate::cell::{next_state, Cell};
use vstd::arithmetic::div_mod::{
    lemma_fundamental_div_mod, lemma_fundamental_div_mod_converse, lemma_mod_bound,
};
use vstd::prelude::*;

verus! {

/// `x` wrapped into the range `0..n`.
pub open spec fn wrap(x: int, n: nat) -> int {
    x % (n as int)
}

/// A grid of `height` rows and `width` columns. The cell of row `r` and column
/// `c` stands at position `r * width + c` of `cells`.
pub struct Grid {
    pub width: nat,
    pub height: nat,
    pub cells: Seq<Cell>,
}

impl Grid {
    /// Both dimensions are positive and `cells` holds one cell per position.
    pub open spec fn wf(self) -> bool {
        &&& self.width > 0
        &&& self.height > 0
        &&& self.cells.len() == self.width * self.height
    }

    /// The position in `cells` of row `row`, column `col`.
    pub open spec fn index(self, row: int, col: int) -> int {
        row * self.width + col
    }

    /// The cell reached from the top left corner by going `row` rows down and
    /// `col` columns right, around the torus as often as it takes.
    pub open spec fn cell(self, row: int, col: int) -> Cell {
        self.cells[self.index(wrap(row, self.height), wrap(col, self.width))]
    }

    /// The eight positions around row `row`, column `col`, each wrapped into the
    /// grid: row above, same row, row below; in each from left to right.
    pub open spec fn neighbors(self, row: int, col: int) -> Seq<(int, int)> {
        seq![
            (wrap(row - 1, self.height), wrap(col - 1, self.width)),
            (wrap(row - 1, self.height), wrap(col, self.width)),
            (wrap(row - 1, self.height), wrap(col + 1, self.width)),
            (wrap(row, self.height), wrap(col - 1, self.width)),
            (wrap(row, self.height), wrap(col + 1, self.width)),
            (wrap(row + 1, self.height), wrap(col - 1, self.width)),
            (wrap(row + 1, self.height), wrap(col, self.width)),
            (wrap(row + 1, self.height), wrap(col + 1, self.width)),
        ]
    }

    /// `1` if the cell at `position`, a row and a column inside the grid, is
    /// alive, else `0`.
    pub open spec fn population_at(self, position: (int, int)) -> nat {
        self.cells[self.index(position.0, position.1)].population()
    }

    /// How many of the eight neighbouring positions of row `row`, column `col`
    /// hold a live cell. A position that wraps onto another one is counted each
    /// time it occurs.
    pub open spec fn live_neighbors(self, row: int, col: int) -> nat {
        let around = self.neighbors(row, col);
        self.population_at(around[0]) + self.population_at(around[1]) + self.population_at(
            around[2],
        ) + self.population_at(around[3]) + self.population_at(around[4]) + self.population_at(
            around[5],
        ) + self.population_at(around[6]) + self.population_at(around[7])
    }

    /// The state in the next generation of the cell at position `i` of `cells`.
    pub open spec fn next_cell(self, i: int) -> Cell {
        next_state(
            self.cells[i],
            self.live_neighbors(i / (self.width as int), i % (self.width as int)),
        )
    }

    /// The next generation: every cell decided from this generation alone.
    pub open spec fn step(self) -> Grid {
        Grid {
            width: self.width,
            height: self.height,
            cells: Seq::new(self.cells.len(), |i: int| self.next_cell(i)),
        }
    }
}

/// A wrapped coordinate lies inside the grid, and a coordinate that already
/// does is left as it is.
pub proof fn lemma_wrap_in_range(x: int, n: nat)
    requires
        n > 0,
    ensures
        0 <= wrap(x, n) < n,
        0 <= x < n ==> wrap(x, n) == x,
{
    lemma_mod_bound(x, n as int);
    if 0 <= x < n {
        lemma_fundamental_div_mod_converse(x, n as int, 0, x);
    }
}

/// The coordinate before `x` on a ring of `n` positions.
pub open spec fn before(x: int, n: nat) -> int {
    if x == 0 {
        n - 1
    } else {
        x - 1
    }
}

/// The coordinate after `x` on a ring of `n` positions.
pub open spec fn after(x: int, n: nat) -> int {
    if x == n - 1 {
        0
    } else {
        x + 1
    }
}

/// Going one step down or up from `x` and wrapping is the same as wrapping `x`
/// and going one step on the ring.
pub proof fn lemma_wrap_step(x: int, n: nat)
    requires
        n > 0,
    ensures
        wrap(x - 1, n) == before(wrap(x, n), n),
        wrap(x + 1, n) == after(wrap(x, n), n),
{
    let d = n as int;
    let q = x / d;
    let r = x % d;
    lemma_fundamental_div_mod(x, d);
    lemma_mod_bound(x, d);
    assert(x == q * d + r) by (nonlinear_arith)
        requires
            x == d * q + r,
    ;
    if r == 0 {
        assert(x - 1 == (q - 1) * d + (d - 1)) by (nonlinear_arith)
            requires
                x == q * d + r,
                r == 0,
        ;
        lemma_fundamental_div_mod_converse(x - 1, d, q - 1, d - 1);
    } else {
        lemma_fundamental_div_mod_converse(x - 1, d, q, r - 1);
    }
    if r == d - 1 {
        assert(x + 1 == (q + 1) * d + 0) by (nonlinear_arith)
            requires
                x == q * d + r,
                r == d - 1,
        ;
        lemma_fundamental_div_mod_converse(x + 1, d, q + 1, 0);
    } else {
        lemma_fundamental_div_mod_converse(x + 1, d, q, r + 1);
    }
}

/// A row and a column inside the grid have their position inside `cells`, and
/// the position gives both back.
pub proof fn lemma_index_in_range(grid: Grid, row: int, col: int)
    requires
        grid.wf(),
        0 <= row < grid.height,
        0 <= col < grid.width,
    ensures
        0 <= grid.index(row, col) < grid.cells.len(),
        grid.index(row, col) / (grid.width as int) == row,
        grid.index(row, col) % (grid.width as int) == col,
{
    let w = grid.width as int;
    let h = grid.height as int;
    assert(0 <= row * w && row * w + w <= w * h) by (nonlinear_arith)
        requires
            0 <= row < h,
            0 < w,
    ;
    lemma_fundamental_div_mod_converse(row * w + col, w, row, col);
}

/// All eight neighbouring positions lie inside the grid, wherever the cell is.
pub proof fn neighbors_in_range(grid: Grid, row: int, col: int)
    requires
        grid.wf(),
    ensures
        grid.neighbors(row, col).len() == 8,
        forall|k: int|
            0 <= k < 8 ==> {
                let position = #[trigger] grid.neighbors(row, col)[k];
                &&& 0 <= position.0 < grid.height
                &&& 0 <= position.1 < grid.width
                &&& 0 <= grid.index(position.0, position.1) < grid.cells.len()
            },
{
    lemma_wrap_in_range(row - 1, grid.height);
    lemma_wrap_in_range(row, grid.height);
    lemma_wrap_in_range(row + 1, grid.height);
    lemma_wrap_in_range(col - 1, grid.width);
    lemma_wrap_in_range(col, grid.width);
    lemma_wrap_in_range(col + 1, grid.width);
    let around = grid.neighbors(row, col);
    assert forall|k: int| 0 <= k < 8 implies {
        let position = #[trigger] around[k];
        &&& 0 <= position.0 < grid.height
        &&& 0 <= position.1 < grid.width
        &&& 0 <= grid.index(position.0, position.1) < grid.cells.len()
    } by {
        let position = around[k];
        lemma_index_in_range(grid, position.0, position.1);
    }
}

/// The live neighbours of a cell, counted over the rows before and after its
/// own and the columns before and after its own, each taken on its ring.
pub proof fn lemma_live_neighbors_on_rings(grid: Grid, row: int, col: int)
    requires
        grid.wf(),
    ensures
        ({
            let r = wrap(row, grid.height);
            let c = wrap(col, grid.width);
            let above = before(r, grid.height);
            let below = after(r, grid.height);
            let left = before(c, grid.width);
            let right = after(c, grid.width);
            &&& 0 <= r < grid.height
            &&& 0 <= c < grid.width
            &&& 0 <= above < grid.height
            &&& 0 <= below < grid.height
            &&& 0 <= left < grid.width
            &&& 0 <= right < grid.width
            &&& grid.live_neighbors(row, col) == grid.population_at((above, left))
                + grid.population_at((above, c)) + grid.population_at((above, right))
                + grid.population_at((r, left)) + grid.population_at((r, right))
                + grid.population_at((below, left)) + grid.population_at((below, c))
                + grid.population_at((below, right))
        }),
{
    lemma_wrap_in_range(row, grid.height);
    lemma_wrap_in_range(col, grid.width);
    lemma_wrap_step(row, grid.height);
    lemma_wrap_step(col, grid.width);
    let around = grid.neighbors(row, col);
    let r = wrap(row, grid.height);
    let c = wrap(col, grid.width);
    assert(around[0] == (before(r, grid.height), before(c, grid.width)));
    assert(around[1] == (before(r, grid.height), c));
    assert(around[2] == (before(r, grid.height), after(c, grid.width)));
    assert(around[3] == (r, before(c, grid.width)));
    assert(around[4] == (r, after(c, grid.width)));
    assert(around[5] == (after(r, grid.height), before(c, grid.width)));
    assert(around[6] == (after(r, grid.height), c));
    assert(around[7] == (after(r, grid.height), after(c, grid.width)));
}

/// The neighbours of the top left corner reach around both edges at once: the
/// row above it is the last row, and the column left of it is the last column.
pub proof fn corner_neighbors_wrap(grid: Grid)
    requires
        grid.wf(),
        grid.width >= 2,
        grid.height >= 2,
    ensures
        grid.neighbors(0, 0) == seq![
            (grid.height - 1, grid.width - 1),
            (grid.height - 1, 0int),
            (grid.height - 1, 1int),
            (0int, grid.width - 1),
            (0int, 1int),
            (1int, grid.width - 1),
            (1int, 0int),
            (1int, 1int),
        ],
{
    lemma_wrap_in_range(0, grid.height);
    lemma_wrap_in_range(1, grid.height);
    lemma_wrap_in_range(0, grid.width);
    lemma_wrap_in_range(1, grid.width);
    lemma_wrap_step(0, grid.height);
    lemma_wrap_step(0, grid.width);
    assert(grid.neighbors(0, 0) =~= seq![
        (grid.height - 1, grid.width - 1),
        (grid.height - 1, 0int),
        (grid.height - 1, 1int),
        (0int, grid.width - 1),
        (0int, 1int),
        (1int, grid.width - 1),
        (1int, 0int),
        (1int, 1int),
    ]);
}

/// A step keeps the dimensions, and the grid it gives is well formed.
pub proof fn step_keeps_dimensions(grid: Grid)
    requires
        grid.wf(),
    ensures
        grid.step().wf(),
        grid.step().width == grid.width,
        grid.step().height == grid.height,
        grid.step().cells.len() == grid.cells.len(),
{
}

/// In one step every cell follows the rule, with its live neighbours counted
/// in the generation before the step: a live cell with fewer than two or more
/// than three of them dies, a live cell with two or three lives on, and a dead
/// cell becomes alive with exactly three and stays dead otherwise.
pub proof fn step_follows_rule(grid: Grid, row: int, col: int)
    requires
        grid.wf(),
        0 <= row < grid.height,
        0 <= col < grid.width,
    ensures
        grid.step().cell(row, col) == next_state(
            grid.cell(row, col),
            grid.live_neighbors(row, col),
        ),
        grid.cell(row, col) == Cell::Alive && grid.live_neighbors(row, col) < 2
            ==> grid.step().cell(row, col) == Cell::Dead,
        grid.cell(row, col) == Cell::Alive && grid.live_neighbors(row, col) > 3
            ==> grid.step().cell(row, col) == Cell::Dead,
        grid.cell(row, col) == Cell::Alive && (grid.live_neighbors(row, col) == 2
            || grid.live_neighbors(row, col) == 3) ==> grid.step().cell(row, col) == Cell::Alive,
        grid.cell(row, col) == Cell::Dead && grid.live_neighbors(row, col) == 3
            ==> grid.step().cell(row, col) == Cell::Alive,
        grid.cell(row, col) == Cell::Dead && grid.live_neighbors(row, col) != 3
            ==> grid.step().cell(row, col) == Cell::Dead,
{
    lemma_wrap_in_range(row, grid.height);
    lemma_wrap_in_range(col, grid.width);
    lemma_index_in_range(grid, row, col);
}

} // verus!
