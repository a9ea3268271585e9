//! The playing field: its size, its cells and the four headings.

use crate::control::Turn;
use crate::store::CoordSet;
use vstd::prelude::*;

verus! {

/// Number of rows of the grid.
pub const N_ROWS: usize = 5;

/// Number of columns of the grid.
pub const N_COLS: usize = 5;

/// The four headings.
#[derive(Debug, Clone, Copy, PartialEq, Eq, Structural)]
pub enum Direction {
    Up,
    Down,
    Left,
    Right,
}

impl Direction {
    /// The heading a quarter turn counter-clockwise from this one.
    pub open spec fn spec_left(self) -> Direction {
        match self {
            Direction::Up => Direction::Left,
            Direction::Left => Direction::Down,
            Direction::Down => Direction::Right,
            Direction::Right => Direction::Up,
        }
    }

    /// The heading a quarter turn clockwise from this one.
    pub open spec fn spec_right(self) -> Direction {
        match self {
            Direction::Up => Direction::Right,
            Direction::Right => Direction::Down,
            Direction::Down => Direction::Left,
            Direction::Left => Direction::Up,
        }
    }

    /// The heading after a turn intent was applied to this one.
    pub open spec fn spec_turned(self, turn: Turn) -> Direction {
        match turn {
            Turn::Left => self.spec_left(),
            Turn::Right => self.spec_right(),
            Turn::Straight => self,
        }
    }

    /// The heading that points the other way.
    pub open spec fn spec_opposite(self) -> Direction {
        match self {
            Direction::Up => Direction::Down,
            Direction::Down => Direction::Up,
            Direction::Left => Direction::Right,
            Direction::Right => Direction::Left,
        }
    }
}

/// A cell position. The fields are signed so that a position one step off
/// the grid can be held before it is checked.
#[derive(Debug, Clone, Copy, PartialEq, Eq, Structural, Hash)]
pub struct Coords {
    pub row: i8,
    pub col: i8,
}

impl Coords {
    /// True exactly when the position lies off the grid.
    pub open spec fn spec_is_out_of_bounds(&self) -> bool {
        self.row < 0 || self.row >= N_ROWS || self.col < 0 || self.col >= N_COLS
    }

    /// Tells whether the position lies off the grid.
    #[verifier::when_used_as_spec(spec_is_out_of_bounds)]
    pub fn is_out_of_bounds(&self) -> (out: bool)
        ensures
            out == self.spec_is_out_of_bounds(),
    {
        self.row < 0 || self.row >= (N_ROWS as i8) || self.col < 0 || self.col >= (N_COLS as i8)
    }

    /// The cell that a draw of two bytes stands for: each byte is reduced
    /// modulo the grid's extent.
    pub open spec fn spec_from_bytes(row_byte: u8, col_byte: u8) -> Coords {
        Coords {
            row: (row_byte as int % N_ROWS as int) as i8,
            col: (col_byte as int % N_COLS as int) as i8,
        }
    }

    /// Maps a draw of two bytes to a cell of the grid.
    pub fn from_bytes(row_byte: u8, col_byte: u8) -> (cell: Coords)
        ensures
            cell == Coords::spec_from_bytes(row_byte, col_byte),
            !cell.spec_is_out_of_bounds(),
    {
        Coords {
            row: ((row_byte as usize) % N_ROWS) as i8,
            col: ((col_byte as usize) % N_COLS) as i8,
        }
    }

    /// The outcome of one draw of rejection sampling: the drawn cell, unless
    /// `exclude` holds it.
    pub open spec fn spec_random(row_byte: u8, col_byte: u8, exclude: Option<Set<Coords>>) -> Option<
        Coords,
    > {
        let cell = Coords::spec_from_bytes(row_byte, col_byte);
        if exclude is Some && exclude->0.contains(cell) {
            None
        } else {
            Some(cell)
        }
    }

    /// One draw of rejection sampling over the grid. The two bytes come from
    /// the random source; the result is the cell they stand for, or `None`
    /// when `exclude` holds that cell and the caller has to draw again.
    pub fn random(row_byte: u8, col_byte: u8, exclude: Option<&CoordSet>) -> (drawn: Option<Coords>)
        ensures
            drawn == Coords::spec_random(
                row_byte,
                col_byte,
                match exclude {
                    Some(set) => Some(set@),
                    None => None,
                },
            ),
    {
        let cell = Coords::from_bytes(row_byte, col_byte);
        match exclude {
            Some(set) => {
                if set.contains(&cell) {
                    None
                } else {
                    Some(cell)
                }
            },
            None => Some(cell),
        }
    }

    /// The position one step from this one in the given heading.
    pub open spec fn spec_neighbour(self, heading: Direction) -> Coords {
        match heading {
            Direction::Up => Coords { row: (self.row - 1) as i8, col: self.col },
            Direction::Down => Coords { row: (self.row + 1) as i8, col: self.col },
            Direction::Left => Coords { row: self.row, col: (self.col - 1) as i8 },
            Direction::Right => Coords { row: self.row, col: (self.col + 1) as i8 },
        }
    }

    /// Projects one step in the given heading. The result may lie off the
    /// grid.
    pub fn neighbour(&self, heading: Direction) -> (next: Coords)
        requires
            i8::MIN < self.row < i8::MAX,
            i8::MIN < self.col < i8::MAX,
        ensures
            next == self.spec_neighbour(heading),
    {
        match heading {
            Direction::Up => Coords { row: self.row - 1, col: self.col },
            Direction::Down => Coords { row: self.row + 1, col: self.col },
            Direction::Left => Coords { row: self.row, col: self.col - 1 },
            Direction::Right => Coords { row: self.row, col: self.col + 1 },
        }
    }
}

/// A turn intent never reverses the heading.
pub proof fn lemma_turn_never_reverses(heading: Direction, turn: Turn)
    ensures
        heading.spec_turned(turn) != heading.spec_opposite(),
{
}

/// A left turn and a right turn undo each other, and four turns the same
/// way come back to the first heading.
pub proof fn lemma_turns_are_rotations(heading: Direction)
    ensures
        heading.spec_left().spec_right() == heading,
        heading.spec_right().spec_left() == heading,
        heading.spec_left().spec_left() == heading.spec_opposite(),
        heading.spec_right().spec_right() == heading.spec_opposite(),
        heading.spec_left().spec_left().spec_left().spec_left() == heading,
        heading.spec_right().spec_right().spec_right().spec_right() == heading,
{
}

} // verus!
