use vstd::prelude::*;

use crate::cell::{flip, cell_score, glyph, Cell};
use vstd::arithmetic::div_mod::lemma_fundamental_div_mod_converse;
use vstd::string::StringExecFns;

verus! {

/// The row (or column) one step up (or left) of `x` on a torus of extent `m`:
/// the last line when `x` is the first, `x - 1` otherwise.
pub open spec fn wrap_dec(x: int, m: int) -> int {
    if x == 0 {
        m - 1
    } else {
        x - 1
    }
}

/// The row (or column) one step down (or right) of `x` on a torus of extent `m`:
/// the first line when `x` is the last, `x + 1` otherwise.
pub open spec fn wrap_inc(x: int, m: int) -> int {
    if x + 1 == m {
        0
    } else {
        x + 1
    }
}

/// The Life transition rule for one cell with live-neighbour count `n`:
/// a live cell survives exactly with two or three live neighbours,
/// a dead cell comes alive exactly with three.
pub open spec fn next_cell(c: Cell, n: int) -> Cell {
    match c {
        Cell::Alive => if n < 2 {
            Cell::Dead
        } else if n == 2 || n == 3 {
            Cell::Alive
        } else {
            Cell::Dead
        },
        Cell::Dead => if n == 3 {
            Cell::Alive
        } else {
            Cell::Dead
        },
    }
}

/// A toroidal Life grid: `width * height` cells in one flat, row-major buffer.
pub struct Universe {
    pub width: u32,
    pub height: u32,
    pub cells: Vec<Cell>,
}

impl Universe {
    /// The buffer holds exactly one cell per grid position, and the whole
    /// grid is addressable with `u32` index arithmetic.
    pub open spec fn wf(self) -> bool {
        self.cells@.len() == self.width as int * self.height as int
            && self.width as int * self.height as int <= u32::MAX as int
    }

    /// The flat index of the cell at `(row, col)`.
    pub open spec fn flat_index(self, row: int, col: int) -> int {
        row * self.width as int + col
    }

    /// The cell stored at `(row, col)`.
    pub open spec fn at(self, row: int, col: int) -> Cell {
        self.cells@[self.flat_index(row, col)]
    }

    /// How many of the eight wraparound neighbours of `(row, col)` are alive.
    #[verifier::opaque]
    pub open spec fn neighbour_sum(self, row: int, col: int) -> int {
        let up = wrap_dec(row, self.height as int);
        let down = wrap_inc(row, self.height as int);
        let left = wrap_dec(col, self.width as int);
        let right = wrap_inc(col, self.width as int);
        cell_score(self.at(up, left)) + cell_score(self.at(up, col)) + cell_score(
            self.at(up, right),
        ) + cell_score(self.at(row, left)) + cell_score(self.at(row, right)) + cell_score(
            self.at(down, left),
        ) + cell_score(self.at(down, col)) + cell_score(self.at(down, right))
    }

    /// The flat index of a cell in range lies within the buffer.
    pub proof fn lemma_flat_index_in_range(self, row: int, col: int)
        requires
            self.wf(),
            0 <= row < self.height as int,
            0 <= col < self.width as int,
        ensures
            0 <= self.flat_index(row, col) < self.cells@.len(),
    {
        let w = self.width as int;
        let h = self.height as int;
        assert(0 <= row * w + col < w * h) by (nonlinear_arith)
            requires
                0 <= row < h,
                0 <= col < w,
        ;
    }

    /// Distinct positions have distinct flat indices, and conversely.
    pub proof fn lemma_flat_index_injective(self, r1: int, c1: int, r2: int, c2: int)
        requires
            0 <= r1,
            0 <= r2,
            0 <= c1 < self.width as int,
            0 <= c2 < self.width as int,
        ensures
            (self.flat_index(r1, c1) == self.flat_index(r2, c2)) <==> (r1 == r2 && c1 == c2),
    {
        let w = self.width as int;
        assert((r1 * w + c1 == r2 * w + c2) <==> (r1 == r2 && c1 == c2)) by (nonlinear_arith)
            requires
                0 <= r1,
                0 <= r2,
                0 <= c1 < w,
                0 <= c2 < w,
        ;
    }

    fn get_index(&self, row: u32, column: u32) -> (idx: usize)
        requires
            self.wf(),
            row < self.height,
            column < self.width,
        ensures
            idx as int == self.flat_index(row as int, column as int),
            idx < self.cells@.len(),
    {
        proof {
            self.lemma_flat_index_in_range(row as int, column as int);
        }
        (row * self.width + column) as usize
    }

    /// A buffer of `n` dead cells.
    fn dead_cells(n: u32) -> (v: Vec<Cell>)
        ensures
            v@.len() == n as int,
            forall|k: int| 0 <= k < n as int ==> v@[k] == Cell::Dead,
    {
        let mut v: Vec<Cell> = Vec::new();
        let mut i: u32 = 0;
        while i < n
            invariant
                i <= n,
                v@.len() == i as int,
                forall|k: int| 0 <= k < i as int ==> v@[k] == Cell::Dead,
            decreases n - i,
        {
            v.push(Cell::Dead);
            i = i + 1;
        }
        v
    }

    /// A grid whose cell states are injected one by one, in row-major order:
    /// cell `k` is alive exactly when `alive[k]` is true. The caller draws the
    /// flags from whatever source it likes (a uniform random source, say),
    /// which keeps this constructor deterministic in its inputs.
    pub fn new(width: u32, height: u32, alive: &[bool]) -> (u: Universe)
        requires
            width as int * height as int <= u32::MAX as int,
            alive@.len() == width as int * height as int,
        ensures
            u.wf(),
            u.width == width,
            u.height == height,
            forall|k: int|
                0 <= k < u.cells@.len() ==> u.cells@[k] == (if alive@[k] {
                    Cell::Alive
                } else {
                    Cell::Dead
                }),
    {
        let n: u32 = width * height;
        let mut cells: Vec<Cell> = Vec::new();
        let mut i: u32 = 0;
        while i < n
            invariant
                i <= n,
                alive@.len() == n as int,
                cells@.len() == i as int,
                forall|k: int|
                    0 <= k < i as int ==> cells@[k] == (if alive@[k] {
                        Cell::Alive
                    } else {
                        Cell::Dead
                    }),
            decreases n - i,
        {
            if alive[i as usize] {
                cells.push(Cell::Alive);
            } else {
                cells.push(Cell::Dead);
            }
            i = i + 1;
        }
        Universe { width, height, cells }
    }

    /// A grid of all-dead cells.
    pub fn empty(width: u32, height: u32) -> (u: Universe)
        requires
            width as int * height as int <= u32::MAX as int,
        ensures
            u.wf(),
            u.width == width,
            u.height == height,
            forall|k: int| 0 <= k < u.cells@.len() ==> u.cells@[k] == Cell::Dead,
    {
        let cells = Self::dead_cells(width * height);
        Universe { width, height, cells }
    }

    /// Counts the live cells among the eight wraparound neighbours of
    /// `(row, column)`.
    pub fn live_neighbour_count(&self, row: u32, column: u32) -> (count: u8)
        requires
            self.wf(),
            row < self.height,
            column < self.width,
        ensures
            count as int == self.neighbour_sum(row as int, column as int),
            count <= 8,
    {
        let up = if row == 0 {
            self.height - 1
        } else {
            row - 1
        };
        let down = if row + 1 == self.height {
            0
        } else {
            row + 1
        };
        let left = if column == 0 {
            self.width - 1
        } else {
            column - 1
        };
        let right = if column + 1 == self.width {
            0
        } else {
            column + 1
        };
        proof {
            reveal(Universe::neighbour_sum);
        }
        let mut count: u8 = 0;
        count = count + self.cells[self.get_index(up, left)].score();
        count = count + self.cells[self.get_index(up, column)].score();
        count = count + self.cells[self.get_index(up, right)].score();
        count = count + self.cells[self.get_index(row, left)].score();
        count = count + self.cells[self.get_index(row, right)].score();
        count = count + self.cells[self.get_index(down, left)].score();
        count = count + self.cells[self.get_index(down, column)].score();
        count = count + self.cells[self.get_index(down, right)].score();
        count
    }

    /// Positions earlier in row-major order have strictly smaller flat
    /// indices (with stride `s` and column numbers below `s`).
    proof fn lemma_row_major_order(r1: int, c1: int, r2: int, c2: int, s: int)
        requires
            0 <= c1 < s,
            0 <= c2,
            0 <= r1,
            r1 < r2 || (r1 == r2 && c1 < c2),
        ensures
            r1 * s + c1 < r2 * s + c2,
    {
        assert(r1 * s + c1 < r2 * s + c2) by (nonlinear_arith)
            requires
                0 <= c1 < s,
                0 <= c2,
                0 <= r1,
                r1 < r2 || (r1 == r2 && c1 < c2),
        ;
    }

    /// Advances the whole grid by one generation: every cell moves to
    /// `next_cell` of its old state and its old live-neighbour count. The
    /// new generation is computed into a scratch buffer and swapped in, so
    /// no read ever sees a partially updated grid.
    pub fn tick(&mut self)
        requires
            old(self).wf(),
        ensures
            final(self).wf(),
            final(self).width == old(self).width,
            final(self).height == old(self).height,
            forall|r: int, c: int|
                0 <= r < old(self).height as int && 0 <= c < old(self).width as int
                    ==> final(self).at(r, c) == next_cell(
                    old(self).at(r, c),
                    old(self).neighbour_sum(r, c),
                ),
    {
        let mut next: Vec<Cell> = Vec::new();
        let mut row: u32 = 0;
        while row < self.height
            invariant
                *self == *old(self),
                self.wf(),
                row <= self.height,
                next@.len() == row as int * self.width as int,
                forall|r: int, c: int|
                    0 <= r < row as int && 0 <= c < self.width as int ==> next@[self.flat_index(
                        r,
                        c,
                    )] == next_cell(self.at(r, c), self.neighbour_sum(r, c)),
            decreases self.height - row,
        {
            let mut col: u32 = 0;
            while col < self.width
                invariant
                    *self == *old(self),
                    self.wf(),
                    row < self.height,
                    col <= self.width,
                    next@.len() == row as int * self.width as int + col as int,
                    forall|r: int, c: int|
                        0 <= r < self.height as int && 0 <= c < self.width as int && (r
                            < row as int || (r == row as int && c < col as int))
                            ==> next@[self.flat_index(r, c)] == next_cell(
                            self.at(r, c),
                            self.neighbour_sum(r, c),
                        ),
                decreases self.width - col,
            {
                let idx = self.get_index(row, col);
                let cell = self.cells[idx];
                let live_neighbours = self.live_neighbour_count(row, col);
                let next_c = match cell {
                    Cell::Alive => if live_neighbours < 2 {
                        Cell::Dead
                    } else if live_neighbours <= 3 {
                        Cell::Alive
                    } else {
                        Cell::Dead
                    },
                    Cell::Dead => if live_neighbours == 3 {
                        Cell::Alive
                    } else {
                        Cell::Dead
                    },
                };
                next.push(next_c);
                proof {
                    assert forall|r: int, c: int|
                        0 <= r < self.height as int && 0 <= c < self.width as int && (r
                            < row as int || (r == row as int && c < col as int)) implies next@[self.flat_index(
                        r,
                        c,
                    )] == next_cell(self.at(r, c), self.neighbour_sum(r, c)) by {
                        Self::lemma_row_major_order(
                            r,
                            c,
                            row as int,
                            col as int,
                            self.width as int,
                        );
                    }
                    assert(next@[self.flat_index(row as int, col as int)] == next_cell(
                        self.at(row as int, col as int),
                        self.neighbour_sum(row as int, col as int),
                    ));
                }
                col = col + 1;
            }
            proof {
                assert((row as int + 1) * self.width as int == row as int * self.width as int
                    + self.width as int) by (nonlinear_arith);
            }
            row = row + 1;
        }
        proof {
            assert(self.height as int * self.width as int == self.width as int
                * self.height as int) by (nonlinear_arith);
        }
        self.cells = next;
    }

    /// The buffer after flipping the cell at `(row, col)`.
    pub open spec fn toggled(self, row: int, col: int) -> Seq<Cell> {
        self.cells@.update(self.flat_index(row, col), flip(self.at(row, col)))
    }

    /// Flips the state of the cell at `(row, col)`.
    pub fn toggle_cell(&mut self, row: u32, col: u32)
        requires
            old(self).wf(),
            row < old(self).height,
            col < old(self).width,
        ensures
            final(self).wf(),
            final(self).width == old(self).width,
            final(self).height == old(self).height,
            final(self).cells@ == old(self).toggled(row as int, col as int),
    {
        let idx = self.get_index(row, col);
        self.cells[idx].toggle();
    }

    /// Sets each listed `(row, col)` cell to `Alive`, leaving every other
    /// cell untouched. Duplicate pairs are harmless.
    pub fn set_cells(&mut self, cells: &[(u32, u32)])
        requires
            old(self).wf(),
            forall|j: int|
                0 <= j < cells@.len() ==> cells@[j].0 < old(self).height && cells@[j].1 < old(
                    self,
                ).width,
        ensures
            final(self).wf(),
            final(self).width == old(self).width,
            final(self).height == old(self).height,
            forall|k: int|
                0 <= k < final(self).cells@.len() ==> final(self).cells@[k] == (
                if exists|j: int|
                    0 <= j < cells@.len() && k == old(self).flat_index(
                        cells@[j].0 as int,
                        cells@[j].1 as int,
                    ) {
                    Cell::Alive
                } else {
                    old(self).cells@[k]
                }),
    {
        let mut i: usize = 0;
        while i < cells.len()
            invariant
                self.wf(),
                self.width == old(self).width,
                self.height == old(self).height,
                self.cells@.len() == old(self).cells@.len(),
                i <= cells@.len(),
                forall|j: int|
                    0 <= j < cells@.len() ==> cells@[j].0 < self.height && cells@[j].1
                        < self.width,
                forall|k: int|
                    0 <= k < self.cells@.len() ==> self.cells@[k] == (
                    if exists|j: int|
                        0 <= j < i as int && k == old(self).flat_index(
                            cells@[j].0 as int,
                            cells@[j].1 as int,
                        ) {
                        Cell::Alive
                    } else {
                        old(self).cells@[k]
                    }),
            decreases cells@.len() - i as int,
        {
            let pair = cells[i];
            let idx = self.get_index(pair.0, pair.1);
            self.cells[idx] = Cell::Alive;
            i = i + 1;
        }
    }

    /// Sets the width and resets every cell to `Dead`: a destructive
    /// resize, equivalent to building an empty grid of the new shape.
    pub fn set_width(&mut self, width: u32)
        requires
            width as int * old(self).height as int <= u32::MAX as int,
        ensures
            final(self).wf(),
            final(self).width == width,
            final(self).height == old(self).height,
            forall|k: int|
                0 <= k < final(self).cells@.len() ==> final(self).cells@[k] == Cell::Dead,
    {
        self.width = width;
        self.cells = Self::dead_cells(self.width * self.height);
    }

    /// Sets the height and resets every cell to `Dead`: a destructive
    /// resize, equivalent to building an empty grid of the new shape.
    pub fn set_height(&mut self, height: u32)
        requires
            old(self).width as int * height as int <= u32::MAX as int,
        ensures
            final(self).wf(),
            final(self).width == old(self).width,
            final(self).height == height,
            forall|k: int|
                0 <= k < final(self).cells@.len() ==> final(self).cells@[k] == Cell::Dead,
    {
        self.height = height;
        self.cells = Self::dead_cells(self.width * self.height);
    }

    /// The buffer after stamping the canonical glider over the 3-by-3
    /// wraparound neighbourhood of `(row, col)`, writing the nine cells in
    /// row-major order (later writes win where wraparound makes positions
    /// coincide).
    pub open spec fn glider_stamped(self, row: int, col: int) -> Seq<Cell> {
        let pr = wrap_dec(row, self.height as int);
        let nr = wrap_inc(row, self.height as int);
        let pc = wrap_dec(col, self.width as int);
        let nc = wrap_inc(col, self.width as int);
        self.cells@.update(self.flat_index(pr, pc), Cell::Alive).update(
            self.flat_index(pr, col),
            Cell::Dead,
        ).update(self.flat_index(pr, nc), Cell::Dead).update(
            self.flat_index(row, pc),
            Cell::Dead,
        ).update(self.flat_index(row, col), Cell::Alive).update(
            self.flat_index(row, nc),
            Cell::Alive,
        ).update(self.flat_index(nr, pc), Cell::Alive).update(
            self.flat_index(nr, col),
            Cell::Alive,
        ).update(self.flat_index(nr, nc), Cell::Dead)
    }

    /// Overwrites the 3-by-3 wraparound neighbourhood of `(row, col)` with
    /// the canonical glider pattern (an unconditional overwrite, not a
    /// merge).
    pub fn insert_glider(&mut self, row: u32, col: u32)
        requires
            old(self).wf(),
            row < old(self).height,
            col < old(self).width,
        ensures
            final(self).wf(),
            final(self).width == old(self).width,
            final(self).height == old(self).height,
            final(self).cells@ == old(self).glider_stamped(row as int, col as int),
    {
        let previous_row = if row == 0 {
            self.height - 1
        } else {
            row - 1
        };
        let next_row = if row + 1 == self.height {
            0
        } else {
            row + 1
        };
        let previous_col = if col == 0 {
            self.width - 1
        } else {
            col - 1
        };
        let next_col = if col + 1 == self.width {
            0
        } else {
            col + 1
        };

        let idx = self.get_index(previous_row, previous_col);
        self.cells[idx].set_alive();
        let idx = self.get_index(previous_row, col);
        self.cells[idx].set_dead();
        let idx = self.get_index(previous_row, next_col);
        self.cells[idx].set_dead();

        let idx = self.get_index(row, previous_col);
        self.cells[idx].set_dead();
        let idx = self.get_index(row, col);
        self.cells[idx].set_alive();
        let idx = self.get_index(row, next_col);
        self.cells[idx].set_alive();

        let idx = self.get_index(next_row, previous_col);
        self.cells[idx].set_alive();
        let idx = self.get_index(next_row, col);
        self.cells[idx].set_alive();
        let idx = self.get_index(next_row, next_col);
        self.cells[idx].set_dead();
    }

    /// The current width.
    pub fn width(&self) -> (w: u32)
        ensures
            w == self.width,
    {
        self.width
    }

    /// The current height.
    pub fn height(&self) -> (h: u32)
        ensures
            h == self.height,
    {
        self.height
    }

    /// The textual rendering: one glyph per cell, each row of glyphs closed
    /// by a newline, rows from top to bottom and cells from left to right.
    pub open spec fn render_spec(self) -> Seq<char> {
        let w = self.width as int;
        let h = self.height as int;
        Seq::new(
            (h * (w + 1)) as nat,
            |i: int|
                if i % (w + 1) == w {
                    '\n'
                } else {
                    glyph(self.at(i / (w + 1), i % (w + 1)))
                },
        )
    }

    /// Renders the grid as text, one line per row.
    pub fn render(&self) -> (text: String)
        requires
            self.wf(),
        ensures
            text@ == self.render_spec(),
    {
        let mut text = String::new();
        let mut row: u32 = 0;
        proof {
            assert(self.height as int * (self.width as int + 1) >= 0) by (nonlinear_arith)
                requires
                    self.height as int >= 0 && self.width as int >= 0,
            ;
        }
        while row < self.height
            invariant
                self.wf(),
                row <= self.height,
                text@ == self.render_spec().take(row as int * (self.width as int + 1)),
            decreases self.height - row,
        {
            let mut col: u32 = 0;
            while col < self.width
                invariant
                    self.wf(),
                    row < self.height,
                    col <= self.width,
                    text@ == self.render_spec().take(
                        row as int * (self.width as int + 1) + col as int,
                    ),
                decreases self.width - col,
            {
                let idx = self.get_index(row, col);
                let g = self.cells[idx].glyph_text();
                text.append(g);
                proof {
                    let w = self.width as int;
                    let pos = row as int * (w + 1) + col as int;
                    Self::lemma_row_major_order(row as int, col as int, self.height as int, 0, w + 1);
                    lemma_fundamental_div_mod_converse(pos, w + 1, row as int, col as int);
                    assert(self.render_spec().take(pos + 1) =~= self.render_spec().take(pos)
                        + seq![self.render_spec()[pos]]);
                }
                col = col + 1;
            }
            text.append("\n");
            proof {
                reveal_strlit("\n");
                let w = self.width as int;
                let pos = row as int * (w + 1) + w;
                Self::lemma_row_major_order(row as int, w, self.height as int, 0, w + 1);
                lemma_fundamental_div_mod_converse(pos, w + 1, row as int, w);
                assert(self.render_spec().take(pos + 1) =~= self.render_spec().take(pos)
                    + seq![self.render_spec()[pos]]);
                assert((row as int + 1) * (w + 1) == row as int * (w + 1) + (w + 1))
                    by (nonlinear_arith);
            }
            row = row + 1;
        }
        proof {
            assert(text@ =~= self.render_spec());
        }
        text
    }

    /// A read-only view of the whole flat buffer.
    pub fn get_cells(&self) -> (s: &[Cell])
        ensures
            s@ == self.cells@,
    {
        self.cells.as_slice()
    }
}

} // verus!
