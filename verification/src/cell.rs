use vstd::prelude::*;

verus! {

/// The state of one grid cell: either dead or alive.
#[derive(Clone, Copy, Debug, PartialEq, Eq, Structural)]
pub enum Cell {
    Dead,
    Alive,
}

/// The opposite state: `Alive` for `Dead` and `Dead` for `Alive`.
pub open spec fn flip(c: Cell) -> Cell {
    match c {
        Cell::Dead => Cell::Alive,
        Cell::Alive => Cell::Dead,
    }
}

/// The integer a cell contributes to a neighbour count: 0 when dead, 1 when alive.
pub open spec fn cell_score(c: Cell) -> int {
    match c {
        Cell::Dead => 0,
        Cell::Alive => 1,
    }
}

/// The glyph a cell is rendered as: a filled square for a live cell, a
/// hollow square for a dead one.
pub open spec fn glyph(c: Cell) -> char {
    match c {
        Cell::Alive => '■',
        Cell::Dead => '☐',
    }
}

impl Cell {
    /// Replaces the state with its opposite.
    pub fn toggle(&mut self)
        ensures
            *final(self) == flip(*old(self)),
    {
        *self = match *self {
            Cell::Alive => Cell::Dead,
            Cell::Dead => Cell::Alive,
        };
    }

    /// Sets the state to `Alive`.
    pub fn set_alive(&mut self)
        ensures
            *final(self) == Cell::Alive,
    {
        *self = Cell::Alive;
    }

    /// Sets the state to `Dead`.
    pub fn set_dead(&mut self)
        ensures
            *final(self) == Cell::Dead,
    {
        *self = Cell::Dead;
    }

    /// This cell's glyph, as a one-character string slice.
    pub fn glyph_text(&self) -> (s: &'static str)
        ensures
            s@ == seq![glyph(*self)],
    {
        match *self {
            Cell::Alive => {
                proof {
                    reveal_strlit("■");
                }
                "■"
            },
            Cell::Dead => {
                proof {
                    reveal_strlit("☐");
                }
                "☐"
            },
        }
    }

    /// The number this cell adds to a neighbour count.
    pub fn score(&self) -> (r: u8)
        ensures
            r as int == cell_score(*self),
    {
        match *self {
            Cell::Dead => 0,
            Cell::Alive => 1,
        }
    }
}

} // verus!
