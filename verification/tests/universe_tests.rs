use game_of_life::cell::Cell;
use game_of_life::universe::Universe;

fn idx(u: &Universe, row: u32, col: u32) -> usize {
    (row * u.width() + col) as usize
}

fn cell_at(u: &Universe, row: u32, col: u32) -> Cell {
    u.get_cells()[idx(u, row, col)]
}

fn live_count(u: &Universe) -> usize {
    u.get_cells().iter().filter(|c| **c == Cell::Alive).count()
}

#[test]
fn empty_grid_is_all_dead() {
    let u = Universe::empty(4, 3);
    assert_eq!(u.width(), 4);
    assert_eq!(u.height(), 3);
    assert_eq!(u.get_cells().len(), 12);
    assert!(u.get_cells().iter().all(|c| *c == Cell::Dead));
}

#[test]
fn new_reads_flags_in_row_major_order() {
    let flags = [true, false, false, true];
    let u = Universe::new(2, 2, &flags);
    assert_eq!(u.get_cells(), &[Cell::Alive, Cell::Dead, Cell::Dead, Cell::Alive]);
}

#[test]
fn buffer_length_stays_width_times_height() {
    let mut u = Universe::new(5, 4, &[true; 20]);
    assert_eq!(u.get_cells().len(), 20);
    u.tick();
    assert_eq!(u.get_cells().len(), 20);
    u.set_width(7);
    assert_eq!(u.get_cells().len(), 28);
    u.set_height(2);
    assert_eq!(u.get_cells().len(), 14);
    let e = Universe::empty(6, 6);
    assert_eq!(e.get_cells().len(), 36);
}

#[test]
fn neighbour_count_is_eight_on_full_three_by_three() {
    let mut u = Universe::empty(3, 3);
    let all: Vec<(u32, u32)> =
        (0..3).flat_map(|r| (0..3).map(move |c| (r, c))).collect();
    u.set_cells(&all);
    for r in 0..3 {
        for c in 0..3 {
            assert_eq!(u.live_neighbour_count(r, c), 8);
        }
    }
}

#[test]
fn neighbour_count_is_zero_on_dead_grid() {
    let u = Universe::empty(4, 5);
    for r in 0..5 {
        for c in 0..4 {
            assert_eq!(u.live_neighbour_count(r, c), 0);
        }
    }
}

#[test]
fn wraparound_neighbours_of_origin() {
    // The eight neighbours of (0, 0) on a 4x4 torus include the far corner
    // and the far edges.
    let far_cells = [(3, 3), (3, 0), (3, 1), (0, 3), (0, 1), (1, 3), (1, 0), (1, 1)];
    for (r, c) in far_cells {
        let mut u = Universe::empty(4, 4);
        u.set_cells(&[(r, c)]);
        assert_eq!(u.live_neighbour_count(0, 0), 1, "neighbour at ({r}, {c})");
    }
    // A cell outside that ring is not counted.
    let mut u = Universe::empty(4, 4);
    u.set_cells(&[(2, 2)]);
    assert_eq!(u.live_neighbour_count(0, 0), 0);
}

#[test]
fn isolated_cell_dies_of_underpopulation() {
    let mut u = Universe::empty(5, 5);
    u.set_cells(&[(2, 2)]);
    assert_eq!(live_count(&u), 1);
    u.tick();
    assert_eq!(live_count(&u), 0);
}

#[test]
fn two_by_two_block_is_a_still_life() {
    let mut u = Universe::empty(4, 4);
    u.set_cells(&[(1, 1), (1, 2), (2, 1), (2, 2)]);
    let before = u.get_cells().to_vec();
    u.tick();
    assert_eq!(u.get_cells(), before.as_slice());
    u.tick();
    assert_eq!(u.get_cells(), before.as_slice());
}

#[test]
fn blinker_oscillates_with_period_two() {
    let mut u = Universe::empty(5, 5);
    u.set_cells(&[(2, 1), (2, 2), (2, 3)]);
    let horizontal = u.get_cells().to_vec();

    u.tick();
    for r in 0..5 {
        for c in 0..5 {
            let expected = if c == 2 && (1..=3).contains(&r) { Cell::Alive } else { Cell::Dead };
            assert_eq!(cell_at(&u, r, c), expected, "vertical phase at ({r}, {c})");
        }
    }

    u.tick();
    assert_eq!(u.get_cells(), horizontal.as_slice());
}

#[test]
fn overpopulated_cell_dies_and_three_neighbours_give_birth() {
    // Centre cell has four live neighbours and dies; the dead corner cells
    // adjacent to exactly three live cells come alive.
    let mut u = Universe::empty(5, 5);
    u.set_cells(&[(2, 2), (1, 2), (3, 2), (2, 1), (2, 3)]);
    u.tick();
    assert_eq!(cell_at(&u, 2, 2), Cell::Dead);
    assert_eq!(cell_at(&u, 1, 1), Cell::Alive);
    assert_eq!(cell_at(&u, 1, 3), Cell::Alive);
    assert_eq!(cell_at(&u, 3, 1), Cell::Alive);
    assert_eq!(cell_at(&u, 3, 3), Cell::Alive);
}

#[test]
fn survival_with_two_or_three_neighbours() {
    // A corner of the block has exactly three live neighbours and survives.
    let mut u = Universe::empty(5, 5);
    u.set_cells(&[(1, 1), (1, 2), (2, 1), (2, 2)]);
    u.tick();
    assert_eq!(cell_at(&u, 1, 1), Cell::Alive);
    // The middle of a bare line survives with two live neighbours.
    let mut v = Universe::empty(5, 5);
    v.set_cells(&[(2, 1), (2, 2), (2, 3)]);
    v.tick();
    assert_eq!(cell_at(&v, 2, 2), Cell::Alive);
}

#[test]
fn glider_overwrites_its_neighbourhood() {
    let mut u = Universe::empty(5, 5);
    // Pre-fill the whole grid so the stamp must overwrite, not merge.
    let all: Vec<(u32, u32)> =
        (0..5).flat_map(|r| (0..5).map(move |c| (r, c))).collect();
    u.set_cells(&all);
    u.insert_glider(2, 2);
    let expected = [
        (1, 1, Cell::Alive),
        (1, 2, Cell::Dead),
        (1, 3, Cell::Dead),
        (2, 1, Cell::Dead),
        (2, 2, Cell::Alive),
        (2, 3, Cell::Alive),
        (3, 1, Cell::Alive),
        (3, 2, Cell::Alive),
        (3, 3, Cell::Dead),
    ];
    for (r, c, want) in expected {
        assert_eq!(cell_at(&u, r, c), want, "glider cell at ({r}, {c})");
    }
    // Cells outside the 3x3 neighbourhood are untouched.
    assert_eq!(cell_at(&u, 0, 0), Cell::Alive);
    assert_eq!(cell_at(&u, 4, 4), Cell::Alive);
}

#[test]
fn glider_wraps_around_the_origin() {
    let mut u = Universe::empty(5, 5);
    u.insert_glider(0, 0);
    // The surrounding ring wraps to the far edges.
    assert_eq!(cell_at(&u, 4, 4), Cell::Alive);
    assert_eq!(cell_at(&u, 4, 0), Cell::Dead);
    assert_eq!(cell_at(&u, 4, 1), Cell::Dead);
    assert_eq!(cell_at(&u, 0, 4), Cell::Dead);
    assert_eq!(cell_at(&u, 0, 0), Cell::Alive);
    assert_eq!(cell_at(&u, 0, 1), Cell::Alive);
    assert_eq!(cell_at(&u, 1, 4), Cell::Alive);
    assert_eq!(cell_at(&u, 1, 0), Cell::Alive);
    assert_eq!(cell_at(&u, 1, 1), Cell::Dead);
}

#[test]
fn toggle_twice_restores_the_cell() {
    let mut u = Universe::empty(3, 3);
    let before = u.get_cells().to_vec();
    u.toggle_cell(1, 2);
    assert_eq!(cell_at(&u, 1, 2), Cell::Alive);
    u.toggle_cell(1, 2);
    assert_eq!(u.get_cells(), before.as_slice());
}

#[test]
fn set_cells_sets_only_the_named_cells() {
    let mut u = Universe::empty(4, 4);
    u.set_cells(&[(0, 1), (2, 3), (2, 3)]);
    for r in 0..4 {
        for c in 0..4 {
            let expected = if (r, c) == (0, 1) || (r, c) == (2, 3) {
                Cell::Alive
            } else {
                Cell::Dead
            };
            assert_eq!(cell_at(&u, r, c), expected);
        }
    }
}

#[test]
fn resize_zeroes_all_cells() {
    let mut u = Universe::new(3, 3, &[true; 9]);
    u.set_width(5);
    assert_eq!(u.width(), 5);
    assert_eq!(u.height(), 3);
    assert_eq!(u.get_cells().len(), 15);
    assert!(u.get_cells().iter().all(|c| *c == Cell::Dead));

    let mut v = Universe::new(3, 3, &[true; 9]);
    v.set_height(2);
    assert_eq!(v.width(), 3);
    assert_eq!(v.height(), 2);
    assert_eq!(v.get_cells().len(), 6);
    assert!(v.get_cells().iter().all(|c| *c == Cell::Dead));
}

#[test]
fn render_draws_one_glyph_per_cell() {
    let mut u = Universe::empty(2, 2);
    u.set_cells(&[(0, 0)]);
    assert_eq!(u.render(), "\u{25A0}\u{2610}\n\u{2610}\u{2610}\n");
}

#[test]
fn render_empty_three_wide_grid() {
    let u = Universe::empty(3, 1);
    assert_eq!(u.render(), "\u{2610}\u{2610}\u{2610}\n");
}

#[test]
fn one_by_one_grid_wraps_onto_itself() {
    // Every neighbour offset wraps back to the single cell itself.
    let mut u = Universe::empty(1, 1);
    u.set_cells(&[(0, 0)]);
    assert_eq!(u.live_neighbour_count(0, 0), 8);
    u.tick();
    // Eight "neighbours" is overpopulation.
    assert_eq!(cell_at(&u, 0, 0), Cell::Dead);
}
