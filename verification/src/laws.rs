use vstd::prelude::*;

use vstd::arithmetic::div_mod::{lemma_mod_multiples_vanish, lemma_small_mod};

use crate::cell::{cell_score, Cell};
use crate::universe::{next_cell, wrap_dec, wrap_inc, Universe};

verus! {

/// Stepping one line back wraps as modular subtraction does: for a line
/// number `x` on a torus of extent `m`, `wrap_dec(x, m)` is `(x + m - 1) % m`.
pub proof fn lemma_wrap_dec_is_mod(x: int, m: int)
    requires
        0 <= x < m,
    ensures
        wrap_dec(x, m) == (x + m - 1) % m,
{
    if x == 0 {
        lemma_small_mod((m - 1) as nat, m as nat);
    } else {
        lemma_mod_multiples_vanish(1, x - 1, m);
        lemma_small_mod((x - 1) as nat, m as nat);
    }
}

/// Stepping one line forward wraps as modular addition does: for a line
/// number `x` on a torus of extent `m`, `wrap_inc(x, m)` is `(x + 1) % m`.
pub proof fn lemma_wrap_inc_is_mod(x: int, m: int)
    requires
        0 <= x < m,
    ensures
        wrap_inc(x, m) == (x + 1) % m,
{
    if x + 1 == m {
        lemma_mod_multiples_vanish(1, 0, m);
        lemma_small_mod(0, m as nat);
    } else {
        lemma_small_mod((x + 1) as nat, m as nat);
    }
}

/// Neighbour counting at the origin reaches the far edges: the eight
/// neighbours of `(0, 0)` on a grid of `w` columns and `h` rows are exactly
/// the cells at `(h-1, w-1)`, `(h-1, 0)`, `(h-1, 1)`, `(0, w-1)`, `(0, 1)`,
/// `(1, w-1)`, `(1, 0)` and `(1, 1)`.
pub proof fn lemma_wraparound_at_origin(u: Universe)
    requires
        u.wf(),
        2 <= u.height as int,
        2 <= u.width as int,
    ensures
        u.neighbour_sum(0, 0) == cell_score(u.at(u.height as int - 1, u.width as int - 1))
            + cell_score(u.at(u.height as int - 1, 0)) + cell_score(u.at(u.height as int - 1, 1))
            + cell_score(u.at(0, u.width as int - 1)) + cell_score(u.at(0, 1)) + cell_score(
            u.at(1, u.width as int - 1),
        ) + cell_score(u.at(1, 0)) + cell_score(u.at(1, 1)),
{
    reveal(Universe::neighbour_sum);
}

/// On an all-dead grid every cell has zero live neighbours.
pub proof fn lemma_all_dead_no_neighbours(u: Universe, row: int, col: int)
    requires
        u.wf(),
        0 <= row < u.height as int,
        0 <= col < u.width as int,
        forall|r: int, c: int|
            0 <= r < u.height as int && 0 <= c < u.width as int ==> u.at(r, c) == Cell::Dead,
    ensures
        u.neighbour_sum(row, col) == 0,
{
    reveal(Universe::neighbour_sum);
}

/// On the all-alive 3-by-3 torus every cell has eight live neighbours.
pub proof fn lemma_full_three_by_three(u: Universe, row: int, col: int)
    requires
        u.wf(),
        u.height as int == 3,
        u.width as int == 3,
        0 <= row < 3,
        0 <= col < 3,
        forall|r: int, c: int| 0 <= r < 3 && 0 <= c < 3 ==> u.at(r, c) == Cell::Alive,
    ensures
        u.neighbour_sum(row, col) == 8,
{
    reveal(Universe::neighbour_sum);
}

/// A live cell with no live neighbour dies of underpopulation: if `v`
/// holds the generation after `u` (each cell mapped through the
/// transition rule), an isolated live cell of `u` is dead in `v`.
pub proof fn lemma_isolated_cell_dies(u: Universe, v: Universe, row: int, col: int)
    requires
        u.wf(),
        0 <= row < u.height as int,
        0 <= col < u.width as int,
        u.at(row, col) == Cell::Alive,
        u.neighbour_sum(row, col) == 0,
        forall|r: int, c: int|
            0 <= r < u.height as int && 0 <= c < u.width as int ==> v.at(r, c) == next_cell(
                u.at(r, c),
                u.neighbour_sum(r, c),
            ),
    ensures
        v.at(row, col) == Cell::Dead,
{
}

/// Toggling the same cell twice, with no mutation in between, restores the
/// grid: if `v` is `u` with the cell at `(row, col)` flipped, flipping it
/// again in `v` gives back `u`'s buffer.
pub proof fn lemma_toggle_involution(u: Universe, v: Universe, row: int, col: int)
    requires
        u.wf(),
        0 <= row < u.height as int,
        0 <= col < u.width as int,
        v.width == u.width,
        v.height == u.height,
        v.cells@ == u.toggled(row, col),
    ensures
        v.toggled(row, col) == u.cells@,
{
    u.lemma_flat_index_in_range(row, col);
    assert(v.toggled(row, col) =~= u.cells@);
}

/// Stamping the glider and then reading the 3-by-3 wraparound
/// neighbourhood of `(row, col)` yields exactly the fixed glider pattern,
/// whatever stood in those cells before; every cell outside that
/// neighbourhood keeps its old state. Needs a grid of at least 3 columns
/// and 3 rows, so that the nine stamped positions are distinct.
pub proof fn lemma_glider_stamp_reads_back(u: Universe, row: int, col: int)
    requires
        u.wf(),
        3 <= u.height as int,
        3 <= u.width as int,
        0 <= row < u.height as int,
        0 <= col < u.width as int,
    ensures
        ({
            let s = u.glider_stamped(row, col);
            let pr = wrap_dec(row, u.height as int);
            let nr = wrap_inc(row, u.height as int);
            let pc = wrap_dec(col, u.width as int);
            let nc = wrap_inc(col, u.width as int);
            s[u.flat_index(pr, pc)] == Cell::Alive && s[u.flat_index(pr, col)] == Cell::Dead
                && s[u.flat_index(pr, nc)] == Cell::Dead && s[u.flat_index(row, pc)] == Cell::Dead
                && s[u.flat_index(row, col)] == Cell::Alive && s[u.flat_index(row, nc)]
                == Cell::Alive && s[u.flat_index(nr, pc)] == Cell::Alive && s[u.flat_index(
                nr,
                col,
            )] == Cell::Alive && s[u.flat_index(nr, nc)] == Cell::Dead
        }),
        forall|r: int, c: int|
            0 <= r < u.height as int && 0 <= c < u.width as int && !((r == wrap_dec(
                row,
                u.height as int,
            ) || r == row || r == wrap_inc(row, u.height as int)) && (c == wrap_dec(
                col,
                u.width as int,
            ) || c == col || c == wrap_inc(col, u.width as int))) ==> u.glider_stamped(
                row,
                col,
            )[u.flat_index(r, c)] == u.at(r, c),
{
    let h = u.height as int;
    let w = u.width as int;
    let pr = wrap_dec(row, h);
    let nr = wrap_inc(row, h);
    let pc = wrap_dec(col, w);
    let nc = wrap_inc(col, w);
    assert forall|r1: int, c1: int, r2: int, c2: int|
        (r1 == pr || r1 == row || r1 == nr) && (r2 == pr || r2 == row || r2 == nr) && (c1 == pc
            || c1 == col || c1 == nc) && (c2 == pc || c2 == col || c2 == nc) implies ((
    u.flat_index(r1, c1) == u.flat_index(r2, c2)) <==> (r1 == r2 && c1 == c2)) by {
        u.lemma_flat_index_injective(r1, c1, r2, c2);
    }
    u.lemma_flat_index_in_range(pr, pc);
    u.lemma_flat_index_in_range(pr, col);
    u.lemma_flat_index_in_range(pr, nc);
    u.lemma_flat_index_in_range(row, pc);
    u.lemma_flat_index_in_range(row, col);
    u.lemma_flat_index_in_range(row, nc);
    u.lemma_flat_index_in_range(nr, pc);
    u.lemma_flat_index_in_range(nr, col);
    u.lemma_flat_index_in_range(nr, nc);
    assert forall|r: int, c: int|
        0 <= r < h && 0 <= c < w && !((r == pr || r == row || r == nr) && (c == pc || c == col || c
            == nc)) implies u.glider_stamped(row, col)[u.flat_index(r, c)] == u.at(r, c) by {
        u.lemma_flat_index_in_range(r, c);
        u.lemma_flat_index_injective(r, c, pr, pc);
        u.lemma_flat_index_injective(r, c, pr, col);
        u.lemma_flat_index_injective(r, c, pr, nc);
        u.lemma_flat_index_injective(r, c, row, pc);
        u.lemma_flat_index_injective(r, c, row, col);
        u.lemma_flat_index_injective(r, c, row, nc);
        u.lemma_flat_index_injective(r, c, nr, pc);
        u.lemma_flat_index_injective(r, c, nr, col);
        u.lemma_flat_index_injective(r, c, nr, nc);
    }
}

/// Whether the grid holds exactly a 2-by-2 block of live cells whose
/// top-left corner is `(r0, c0)`, every other cell dead.
pub open spec fn is_block(u: Universe, r0: int, c0: int) -> bool {
    forall|r: int, c: int|
        0 <= r < u.height as int && 0 <= c < u.width as int ==> (u.at(r, c) == Cell::Alive <==> ((r
            == r0 || r == wrap_inc(r0, u.height as int)) && (c == c0 || c == wrap_inc(
            c0,
            u.width as int,
        ))))
}

proof fn lemma_block_step_block_row(u: Universe, r0: int, c0: int, r: int, c: int)
    requires
        u.wf(),
        3 <= u.height as int,
        3 <= u.width as int,
        0 <= r0 < u.height as int,
        0 <= c0 < u.width as int,
        0 <= r < u.height as int,
        0 <= c < u.width as int,
        is_block(u, r0, c0),
        r == r0 || r == wrap_inc(r0, u.height as int),
    ensures
        next_cell(u.at(r, c), u.neighbour_sum(r, c)) == u.at(r, c),
{
    reveal(Universe::neighbour_sum);
}

proof fn lemma_block_step_adjacent_row(u: Universe, r0: int, c0: int, r: int, c: int)
    requires
        u.wf(),
        3 <= u.height as int,
        3 <= u.width as int,
        0 <= r0 < u.height as int,
        0 <= c0 < u.width as int,
        0 <= r < u.height as int,
        0 <= c < u.width as int,
        is_block(u, r0, c0),
        r == wrap_dec(r0, u.height as int) || r == wrap_inc(
            wrap_inc(r0, u.height as int),
            u.height as int,
        ),
    ensures
        next_cell(u.at(r, c), u.neighbour_sum(r, c)) == u.at(r, c),
{
    reveal(Universe::neighbour_sum);
}

proof fn lemma_block_step_far_row(u: Universe, r0: int, c0: int, r: int, c: int)
    requires
        u.wf(),
        3 <= u.height as int,
        3 <= u.width as int,
        0 <= r0 < u.height as int,
        0 <= c0 < u.width as int,
        0 <= r < u.height as int,
        0 <= c < u.width as int,
        is_block(u, r0, c0),
        r != r0,
        r != wrap_inc(r0, u.height as int),
        r != wrap_dec(r0, u.height as int),
        r != wrap_inc(wrap_inc(r0, u.height as int), u.height as int),
    ensures
        next_cell(u.at(r, c), u.neighbour_sum(r, c)) == u.at(r, c),
{
    reveal(Universe::neighbour_sum);
}

/// A 2-by-2 block of live cells in an otherwise dead grid is a still
/// life: every block cell has exactly three live neighbours and survives,
/// every dead cell has too few or too many to come alive, so one
/// generation leaves every cell as it was. Needs a grid of at least 3
/// columns and 3 rows; on a 2-by-2 torus the same pattern dies out.
pub proof fn lemma_block_still_life(u: Universe, r0: int, c0: int)
    requires
        u.wf(),
        3 <= u.height as int,
        3 <= u.width as int,
        0 <= r0 < u.height as int,
        0 <= c0 < u.width as int,
        is_block(u, r0, c0),
    ensures
        forall|r: int, c: int|
            0 <= r < u.height as int && 0 <= c < u.width as int ==> next_cell(
                u.at(r, c),
                u.neighbour_sum(r, c),
            ) == u.at(r, c),
{
    let h = u.height as int;
    let r1 = wrap_inc(r0, h);
    assert forall|r: int, c: int| 0 <= r < h && 0 <= c < u.width as int implies next_cell(
        u.at(r, c),
        u.neighbour_sum(r, c),
    ) == u.at(r, c) by {
        if r == r0 || r == r1 {
            lemma_block_step_block_row(u, r0, c0, r, c);
        } else if r == wrap_dec(r0, h) || r == wrap_inc(r1, h) {
            lemma_block_step_adjacent_row(u, r0, c0, r, c);
        } else {
            lemma_block_step_far_row(u, r0, c0, r, c);
        }
    }
}

/// The still life, stated over one generation: if `v` holds the
/// generation after `u` (each cell mapped through the transition rule)
/// and `u` holds exactly a 2-by-2 block of live cells, then `v` equals
/// `u` cell for cell, and holds the same block.
pub proof fn lemma_block_preserved_by_step(u: Universe, v: Universe, r0: int, c0: int)
    requires
        u.wf(),
        v.wf(),
        v.width == u.width,
        v.height == u.height,
        3 <= u.height as int,
        3 <= u.width as int,
        0 <= r0 < u.height as int,
        0 <= c0 < u.width as int,
        is_block(u, r0, c0),
        forall|r: int, c: int|
            0 <= r < u.height as int && 0 <= c < u.width as int ==> v.at(r, c) == next_cell(
                u.at(r, c),
                u.neighbour_sum(r, c),
            ),
    ensures
        forall|r: int, c: int|
            0 <= r < u.height as int && 0 <= c < u.width as int ==> v.at(r, c) == u.at(r, c),
        is_block(v, r0, c0),
{
    lemma_block_still_life(u, r0, c0);
}

/// Whether the grid holds exactly a horizontal line of three live cells
/// starting at `(r0, c0)` and running right (with wraparound), every other
/// cell dead.
pub open spec fn is_horizontal_line(u: Universe, r0: int, c0: int) -> bool {
    forall|r: int, c: int|
        0 <= r < u.height as int && 0 <= c < u.width as int ==> (u.at(r, c) == Cell::Alive <==> (r
            == r0 && (c == c0 || c == wrap_inc(c0, u.width as int) || c == wrap_inc(
            wrap_inc(c0, u.width as int),
            u.width as int,
        ))))
}

/// Whether the grid holds exactly a vertical line of three live cells
/// centred at `(r0, c1)`, every other cell dead.
pub open spec fn is_vertical_line(u: Universe, r0: int, c1: int) -> bool {
    forall|r: int, c: int|
        0 <= r < u.height as int && 0 <= c < u.width as int ==> (u.at(r, c) == Cell::Alive <==> (c
            == c1 && (r == wrap_dec(r0, u.height as int) || r == r0 || r == wrap_inc(
            r0,
            u.height as int,
        ))))
}

proof fn lemma_blinker_h_line_row(u: Universe, r0: int, c0: int, r: int, c: int)
    requires
        u.wf(),
        5 <= u.height as int,
        5 <= u.width as int,
        0 <= r0 < u.height as int,
        0 <= c0 < u.width as int,
        0 <= r < u.height as int,
        0 <= c < u.width as int,
        is_horizontal_line(u, r0, c0),
        r == r0,
    ensures
        next_cell(u.at(r, c), u.neighbour_sum(r, c)) == (if c == wrap_inc(c0, u.width as int) {
            Cell::Alive
        } else {
            Cell::Dead
        }),
{
    reveal(Universe::neighbour_sum);
}

proof fn lemma_blinker_h_adjacent_row(u: Universe, r0: int, c0: int, r: int, c: int)
    requires
        u.wf(),
        5 <= u.height as int,
        5 <= u.width as int,
        0 <= r0 < u.height as int,
        0 <= c0 < u.width as int,
        0 <= r < u.height as int,
        0 <= c < u.width as int,
        is_horizontal_line(u, r0, c0),
        r == wrap_dec(r0, u.height as int) || r == wrap_inc(r0, u.height as int),
    ensures
        next_cell(u.at(r, c), u.neighbour_sum(r, c)) == (if c == wrap_inc(c0, u.width as int) {
            Cell::Alive
        } else {
            Cell::Dead
        }),
{
    reveal(Universe::neighbour_sum);
}

proof fn lemma_blinker_h_far_row(u: Universe, r0: int, c0: int, r: int, c: int)
    requires
        u.wf(),
        5 <= u.height as int,
        5 <= u.width as int,
        0 <= r0 < u.height as int,
        0 <= c0 < u.width as int,
        0 <= r < u.height as int,
        0 <= c < u.width as int,
        is_horizontal_line(u, r0, c0),
        r != r0,
        r != wrap_dec(r0, u.height as int),
        r != wrap_inc(r0, u.height as int),
    ensures
        next_cell(u.at(r, c), u.neighbour_sum(r, c)) == Cell::Dead,
{
    reveal(Universe::neighbour_sum);
}

/// One generation turns a horizontal blinker into a vertical one: on a
/// grid of at least 5 columns and 5 rows holding exactly a horizontal line
/// of three live cells starting at `(r0, c0)`, the transition rule yields
/// exactly a vertical line of three live cells centred one step right of
/// `(r0, c0)`.
pub proof fn lemma_blinker_horizontal_to_vertical(u: Universe, r0: int, c0: int)
    requires
        u.wf(),
        5 <= u.height as int,
        5 <= u.width as int,
        0 <= r0 < u.height as int,
        0 <= c0 < u.width as int,
        is_horizontal_line(u, r0, c0),
    ensures
        forall|r: int, c: int|
            0 <= r < u.height as int && 0 <= c < u.width as int ==> next_cell(
                u.at(r, c),
                u.neighbour_sum(r, c),
            ) == (if c == wrap_inc(c0, u.width as int) && (r == wrap_dec(r0, u.height as int) || r
                == r0 || r == wrap_inc(r0, u.height as int)) {
                Cell::Alive
            } else {
                Cell::Dead
            }),
{
    let h = u.height as int;
    assert forall|r: int, c: int| 0 <= r < h && 0 <= c < u.width as int implies next_cell(
        u.at(r, c),
        u.neighbour_sum(r, c),
    ) == (if c == wrap_inc(c0, u.width as int) && (r == wrap_dec(r0, h) || r == r0 || r
        == wrap_inc(r0, h)) {
        Cell::Alive
    } else {
        Cell::Dead
    }) by {
        if r == r0 {
            lemma_blinker_h_line_row(u, r0, c0, r, c);
        } else if r == wrap_dec(r0, h) || r == wrap_inc(r0, h) {
            lemma_blinker_h_adjacent_row(u, r0, c0, r, c);
        } else {
            lemma_blinker_h_far_row(u, r0, c0, r, c);
        }
    }
}

proof fn lemma_blinker_v_line_col(u: Universe, r0: int, c1: int, r: int, c: int)
    requires
        u.wf(),
        5 <= u.height as int,
        5 <= u.width as int,
        0 <= r0 < u.height as int,
        0 <= c1 < u.width as int,
        0 <= r < u.height as int,
        0 <= c < u.width as int,
        is_vertical_line(u, r0, c1),
        c == c1,
    ensures
        next_cell(u.at(r, c), u.neighbour_sum(r, c)) == (if r == r0 {
            Cell::Alive
        } else {
            Cell::Dead
        }),
{
    reveal(Universe::neighbour_sum);
}

proof fn lemma_blinker_v_adjacent_col(u: Universe, r0: int, c1: int, r: int, c: int)
    requires
        u.wf(),
        5 <= u.height as int,
        5 <= u.width as int,
        0 <= r0 < u.height as int,
        0 <= c1 < u.width as int,
        0 <= r < u.height as int,
        0 <= c < u.width as int,
        is_vertical_line(u, r0, c1),
        c == wrap_dec(c1, u.width as int) || c == wrap_inc(c1, u.width as int),
    ensures
        next_cell(u.at(r, c), u.neighbour_sum(r, c)) == (if r == r0 {
            Cell::Alive
        } else {
            Cell::Dead
        }),
{
    reveal(Universe::neighbour_sum);
}

proof fn lemma_blinker_v_far_col(u: Universe, r0: int, c1: int, r: int, c: int)
    requires
        u.wf(),
        5 <= u.height as int,
        5 <= u.width as int,
        0 <= r0 < u.height as int,
        0 <= c1 < u.width as int,
        0 <= r < u.height as int,
        0 <= c < u.width as int,
        is_vertical_line(u, r0, c1),
        c != c1,
        c != wrap_dec(c1, u.width as int),
        c != wrap_inc(c1, u.width as int),
    ensures
        next_cell(u.at(r, c), u.neighbour_sum(r, c)) == Cell::Dead,
{
    reveal(Universe::neighbour_sum);
}

/// The second half of the blinker period: on a grid of at least 5 columns
/// and 5 rows holding exactly a vertical line of three live cells centred
/// at `(r0, c1)`, one generation yields exactly a horizontal line of three
/// live cells starting one step left of `(r0, c1)`.
pub proof fn lemma_blinker_vertical_to_horizontal(u: Universe, r0: int, c1: int)
    requires
        u.wf(),
        5 <= u.height as int,
        5 <= u.width as int,
        0 <= r0 < u.height as int,
        0 <= c1 < u.width as int,
        is_vertical_line(u, r0, c1),
    ensures
        forall|r: int, c: int|
            0 <= r < u.height as int && 0 <= c < u.width as int ==> next_cell(
                u.at(r, c),
                u.neighbour_sum(r, c),
            ) == (if r == r0 && (c == wrap_dec(c1, u.width as int) || c == c1 || c == wrap_inc(
                c1,
                u.width as int,
            )) {
                Cell::Alive
            } else {
                Cell::Dead
            }),
{
    let w = u.width as int;
    assert forall|r: int, c: int| 0 <= r < u.height as int && 0 <= c < w implies next_cell(
        u.at(r, c),
        u.neighbour_sum(r, c),
    ) == (if r == r0 && (c == wrap_dec(c1, w) || c == c1 || c == wrap_inc(c1, w)) {
        Cell::Alive
    } else {
        Cell::Dead
    }) by {
        if c == c1 {
            lemma_blinker_v_line_col(u, r0, c1, r, c);
        } else if c == wrap_dec(c1, w) || c == wrap_inc(c1, w) {
            lemma_blinker_v_adjacent_col(u, r0, c1, r, c);
        } else {
            lemma_blinker_v_far_col(u, r0, c1, r, c);
        }
    }
}

/// The blinker has period two: if `v` holds the generation after `u` and
/// `t` the generation after `v` (each cell mapped through the transition
/// rule), then a horizontal blinker in `u` stands vertical in `v` and is
/// back in its original place in `t`.
pub proof fn lemma_blinker_period_two(u: Universe, v: Universe, t: Universe, r0: int, c0: int)
    requires
        u.wf(),
        v.wf(),
        t.wf(),
        v.width == u.width,
        v.height == u.height,
        t.width == u.width,
        t.height == u.height,
        5 <= u.height as int,
        5 <= u.width as int,
        0 <= r0 < u.height as int,
        0 <= c0 < u.width as int,
        is_horizontal_line(u, r0, c0),
        forall|r: int, c: int|
            0 <= r < u.height as int && 0 <= c < u.width as int ==> v.at(r, c) == next_cell(
                u.at(r, c),
                u.neighbour_sum(r, c),
            ),
        forall|r: int, c: int|
            0 <= r < u.height as int && 0 <= c < u.width as int ==> t.at(r, c) == next_cell(
                v.at(r, c),
                v.neighbour_sum(r, c),
            ),
    ensures
        is_vertical_line(v, r0, wrap_inc(c0, u.width as int)),
        forall|r: int, c: int|
            0 <= r < u.height as int && 0 <= c < u.width as int ==> t.at(r, c) == u.at(r, c),
{
    let h = u.height as int;
    let w = u.width as int;
    let c1 = wrap_inc(c0, w);
    lemma_blinker_horizontal_to_vertical(u, r0, c0);
    assert(is_vertical_line(v, r0, c1));
    lemma_blinker_vertical_to_horizontal(v, r0, c1);
    assert(wrap_dec(c1, w) == c0);
    assert forall|r: int, c: int| 0 <= r < h && 0 <= c < w implies t.at(r, c) == u.at(r, c) by {
        assert(u.at(r, c) is Alive || u.at(r, c) is Dead);
    }
}

} // verus!
