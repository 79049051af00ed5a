//! The state of one cell, the rule by which it changes, and how it is shown.

use crate::color::Color;
use vstd::prelude::*;
use vstd::string::*;

verus! {

/// A cell of the grid: it is either alive or dead, and has no other identity.
#[derive(Clone, Copy, Debug, PartialEq, Eq, Structural)]
pub enum Cell {
    Alive,
    Dead,
}

/// A probability, as a count of the 2^64 equally likely values of a 64-bit
/// draw: `p` stands for the probability `p / 2^64`.
pub type Proportion = u64;

impl Cell {
    /// The state of a cell in the next generation, given how many of its
    /// neighbours are alive now. A live cell with fewer than two or more than
    /// three live neighbours dies, a dead cell with exactly three live
    /// neighbours comes alive, and every other cell stays as it is.
    pub open spec fn next_state(self, alive_neighbors: int) -> Cell {
        match self {
            Cell::Alive => if alive_neighbors < 2 || alive_neighbors > 3 {
                Cell::Dead
            } else {
                Cell::Alive
            },
            Cell::Dead => if alive_neighbors == 3 {
                Cell::Alive
            } else {
                Cell::Dead
            },
        }
    }

    /// The state that a uniform 64-bit draw gives a fresh cell, where
    /// `dead` is the probability of a dead cell: dead where the draw is
    /// below `dead`, alive otherwise.
    pub open spec fn drawn(draw: u64, dead: Proportion) -> Cell {
        if draw < dead {
            Cell::Dead
        } else {
            Cell::Alive
        }
    }

    /// The character that shows the cell in text.
    pub open spec fn glyph(self) -> char {
        match self {
            Cell::Alive => '#',
            Cell::Dead => ' ',
        }
    }

    /// The colour that shows the cell in pixels.
    pub open spec fn shade(self) -> Color {
        match self {
            Cell::Alive => Color::black(),
            Cell::Dead => Color::white(),
        }
    }

    /// Whether the cell is alive.
    pub fn is_alive(&self) -> (alive: bool)
        ensures
            alive == (*self == Cell::Alive),
    {
        match *self {
            Cell::Alive => true,
            _ => false,
        }
    }

    /// Makes the cell dead, whatever it was.
    pub fn kill(&mut self)
        ensures
            *final(self) == Cell::Dead,
    {
        *self = Cell::Dead;
    }

    /// Makes the cell alive, whatever it was.
    pub fn resurrect(&mut self)
        ensures
            *final(self) == Cell::Alive,
    {
        *self = Cell::Alive;
    }

    /// Applies the rule of the game to the cell, given how many of its
    /// neighbours are alive.
    pub fn step(&mut self, alive_neighbors: usize)
        ensures
            *final(self) == old(self).next_state(alive_neighbors as int),
    {
        let alive: bool = self.is_alive();
        if alive && (alive_neighbors < 2 || alive_neighbors > 3) {
            self.kill();
        } else if !alive && alive_neighbors == 3 {
            self.resurrect();
        }
    }

    /// The cell that the draw `draw` gives where dead cells have the
    /// probability `dead`.
    pub fn from_draw(draw: u64, dead: Proportion) -> (cell: Cell)
        ensures
            cell == Cell::drawn(draw, dead),
    {
        if draw < dead {
            Cell::Dead
        } else {
            Cell::Alive
        }
    }

    /// The cell as text: `#` for a live cell, a space for a dead one.
    pub fn represent(&self) -> (text: String)
        ensures
            text@ == seq![self.glyph()],
    {
        proof {
            reveal_strlit("#");
            reveal_strlit(" ");
        }
        if self.is_alive() {
            String::from_str("#")
        } else {
            String::from_str(" ")
        }
    }

    /// The cell as a colour: black for a live cell, white for a dead one.
    pub fn to_color(&self) -> (color: Color)
        ensures
            color == self.shade(),
    {
        if self.is_alive() {
            Color::rgb(0, 0, 0)
        } else {
            Color::rgb(255, 255, 255)
        }
    }
}

} // verus!
