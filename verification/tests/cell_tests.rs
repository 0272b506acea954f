use game_of_life::cell::Cell;

#[test]
fn toggle_flips_between_the_two_states() {
    let mut c = Cell::Dead;
    c.toggle();
    assert_eq!(c, Cell::Alive);
    c.toggle();
    assert_eq!(c, Cell::Dead);
}

#[test]
fn set_alive_and_set_dead_overwrite_the_state() {
    let mut c = Cell::Dead;
    c.set_alive();
    assert_eq!(c, Cell::Alive);
    c.set_alive();
    assert_eq!(c, Cell::Alive);
    c.set_dead();
    assert_eq!(c, Cell::Dead);
}

#[test]
fn score_counts_a_live_cell_as_one() {
    assert_eq!(Cell::Dead.score(), 0);
    assert_eq!(Cell::Alive.score(), 1);
}

#[test]
fn glyphs_are_filled_and_hollow_squares() {
    assert_eq!(Cell::Alive.glyph_text(), "\u{25A0}");
    assert_eq!(Cell::Dead.glyph_text(), "\u{2610}");
}
