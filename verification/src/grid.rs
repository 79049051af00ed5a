//! The mathematical model of a world: a shape and a sequence of cells, with
//! the neighbour count, the step to the next generation and the text that
//! shows it, and what holds of them.

use crate::cell::Cell;
use crate::dimensions::Dimensions;
use vstd::prelude::*;

verus! {

/// A grid of cells, stored row by row.
pub struct Grid {
    pub dimensions: Dimensions,
    pub cells: Seq<Cell>,
}

impl Grid {
    /// Whether the grid holds exactly as many cells as its shape asks for.
    pub open spec fn wf(self) -> bool {
        self.cells.len() == self.dimensions.cell_count()
    }

    /// The cell at `(x, y)`.
    pub open spec fn cell_at(self, x: int, y: int) -> Cell
        recommends
            self.dimensions.in_bounds(x, y),
    {
        self.cells[self.dimensions.index_of(x, y)]
    }

    /// Whether `(x, y)` names a cell of the grid that is alive. A position
    /// outside the grid names no cell.
    pub open spec fn alive_at(self, x: int, y: int) -> bool {
        self.dimensions.in_bounds(x, y) && self.cell_at(x, y) == Cell::Alive
    }

    /// One for a live cell of the grid at `(x, y)`, zero otherwise.
    pub open spec fn alive_count_at(self, x: int, y: int) -> int {
        if self.alive_at(x, y) {
            1
        } else {
            0
        }
    }

    /// How many of the eight positions around `(x, y)` name a live cell of
    /// the grid. The grid does not wrap around.
    pub open spec fn alive_neighbors(self, x: int, y: int) -> int {
        self.alive_count_at(x - 1, y - 1) + self.alive_count_at(x, y - 1) + self.alive_count_at(
            x + 1,
            y - 1,
        ) + self.alive_count_at(x - 1, y) + self.alive_count_at(x + 1, y) + self.alive_count_at(
            x - 1,
            y + 1,
        ) + self.alive_count_at(x, y + 1) + self.alive_count_at(x + 1, y + 1)
    }

    /// One where `(x, y)` names a cell of the grid, zero otherwise.
    pub open spec fn cell_count_at(self, x: int, y: int) -> int {
        if self.dimensions.in_bounds(x, y) {
            1
        } else {
            0
        }
    }

    /// How many of the eight positions around `(x, y)` name a cell of the
    /// grid.
    pub open spec fn neighbors(self, x: int, y: int) -> int {
        self.cell_count_at(x - 1, y - 1) + self.cell_count_at(x, y - 1) + self.cell_count_at(
            x + 1,
            y - 1,
        ) + self.cell_count_at(x - 1, y) + self.cell_count_at(x + 1, y) + self.cell_count_at(
            x - 1,
            y + 1,
        ) + self.cell_count_at(x, y + 1) + self.cell_count_at(x + 1, y + 1)
    }

    /// Whether some of the eight positions around `(x, y)` lie outside the
    /// grid.
    pub open spec fn clipped(self, x: int, y: int) -> bool {
        !self.dimensions.in_bounds(x - 1, y - 1) || !self.dimensions.in_bounds(x + 1, y + 1)
    }

    /// The cell at `(x, y)` in the next generation.
    pub open spec fn next_cell(self, x: int, y: int) -> Cell
        recommends
            self.dimensions.in_bounds(x, y),
    {
        self.cell_at(x, y).next_state(self.alive_neighbors(x, y))
    }

    /// The next generation: every cell changes by the rule, all at once, on
    /// the neighbour counts of this generation.
    pub open spec fn next(self) -> Grid {
        Grid {
            dimensions: self.dimensions,
            cells: Seq::new(
                self.cells.len(),
                |i: int|
                    self.next_cell(
                        self.dimensions.position_of(i).0,
                        self.dimensions.position_of(i).1,
                    ),
            ),
        }
    }

    /// The grid after the given number of generations.
    pub open spec fn after(self, generations: nat) -> Grid
        decreases generations,
    {
        if generations == 0 {
            self
        } else {
            self.after((generations - 1) as nat).next()
        }
    }

    /// Whether no cell of the grid is alive.
    pub open spec fn all_dead(self) -> bool {
        forall|i: int| 0 <= i < self.cells.len() ==> self.cells[i] == Cell::Dead
    }

    /// Row `y` as text: one character for each cell, from left to right.
    pub open spec fn row_text(self, y: int) -> Seq<char>
        recommends
            0 <= y < self.dimensions.height(),
    {
        Seq::new(self.dimensions.width() as nat, |x: int| self.cell_at(x, y).glyph())
    }

    /// The first `rows` rows as text, with a line feed between one row and
    /// the next, and none after the last.
    pub open spec fn rows_text(self, rows: nat) -> Seq<char>
        recommends
            rows <= self.dimensions.height(),
        decreases rows,
    {
        if rows == 0 {
            Seq::empty()
        } else if rows == 1 {
            self.row_text(0)
        } else {
            self.rows_text((rows - 1) as nat) + seq!['\n'] + self.row_text(rows - 1)
        }
    }

    /// The whole grid as text.
    pub open spec fn text(self) -> Seq<char> {
        self.rows_text(self.dimensions.height() as nat)
    }

    /// The next generation has the shape of this one, and is well formed
    /// where this one is.
    pub proof fn lemma_next_keeps_shape(self)
        ensures
            self.next().dimensions == self.dimensions,
            self.next().cells.len() == self.cells.len(),
            self.wf() ==> self.next().wf(),
    {
    }

    /// A cell of the next generation is the cell of this one, changed by
    /// the rule on the number of its neighbours that are alive now.
    pub proof fn lemma_next_cell_at(self, x: int, y: int)
        requires
            self.wf(),
            self.dimensions.in_bounds(x, y),
        ensures
            self.next().cell_at(x, y) == self.cell_at(x, y).next_state(self.alive_neighbors(x, y)),
    {
        self.dimensions.lemma_index_in_range(x, y);
        self.dimensions.lemma_index_then_position(x, y);
    }

    /// Only cells of the grid count as live neighbours: a position outside
    /// the grid adds nothing. So no more neighbours are alive than there are
    /// cells around `(x, y)`, which is eight at most, and fewer than eight
    /// where the grid's edge cuts some of the eight positions off.
    pub proof fn lemma_alive_neighbors_bounds(self, x: int, y: int)
        ensures
            0 <= self.alive_neighbors(x, y) <= self.neighbors(x, y) <= 8,
            self.clipped(x, y) ==> self.neighbors(x, y) < 8,
            self.clipped(x, y) ==> self.alive_neighbors(x, y) < 8,
    {
    }

    /// A cell on the border of the grid has some of the eight positions
    /// around it cut off, so fewer than eight live neighbours.
    pub proof fn lemma_border_is_clipped(self, x: int, y: int)
        requires
            self.dimensions.in_bounds(x, y),
            x == 0 || y == 0 || x == self.dimensions.width() - 1 || y == self.dimensions.height()
                - 1,
        ensures
            self.clipped(x, y),
            self.alive_neighbors(x, y) < 8,
    {
    }

    /// Birth, death and survival: a dead cell with exactly three live
    /// neighbours is alive in the next generation; a live cell with fewer
    /// than two or more than three is dead; a live cell with two or three
    /// stays alive; and a dead cell with any other number stays dead.
    pub proof fn lemma_rule(self, x: int, y: int)
        requires
            self.wf(),
            self.dimensions.in_bounds(x, y),
        ensures
            self.cell_at(x, y) == Cell::Dead && self.alive_neighbors(x, y) == 3
                ==> self.next().cell_at(x, y) == Cell::Alive,
            self.cell_at(x, y) == Cell::Alive && (self.alive_neighbors(x, y) < 2
                || self.alive_neighbors(x, y) > 3) ==> self.next().cell_at(x, y) == Cell::Dead,
            self.cell_at(x, y) == Cell::Alive && 2 <= self.alive_neighbors(x, y) <= 3
                ==> self.next().cell_at(x, y) == Cell::Alive,
            self.cell_at(x, y) == Cell::Dead && self.alive_neighbors(x, y) != 3
                ==> self.next().cell_at(x, y) == Cell::Dead,
    {
        self.lemma_next_cell_at(x, y);
    }

    /// A grid without a live cell is its own next generation.
    pub proof fn lemma_all_dead_is_stable(self)
        requires
            self.wf(),
            self.all_dead(),
        ensures
            self.next() == self,
    {
        assert forall|i: int| 0 <= i < self.cells.len() implies self.next().cells[i]
            == self.cells[i] by {
            let (x, y) = self.dimensions.position_of(i);
            self.dimensions.lemma_position_in_bounds(i);
            self.dimensions.lemma_position_then_index(i);
            self.lemma_no_alive_neighbors(x, y);
        }
        assert(self.next().cells =~= self.cells);
    }

    /// A grid without a live cell stays as it is, however many generations
    /// pass.
    pub proof fn lemma_all_dead_stays(self, generations: nat)
        requires
            self.wf(),
            self.all_dead(),
        ensures
            self.after(generations) == self,
        decreases generations,
    {
        if generations > 0 {
            self.lemma_all_dead_stays((generations - 1) as nat);
            self.lemma_all_dead_is_stable();
        }
    }

    /// In a grid without a live cell no position has a live neighbour.
    proof fn lemma_no_alive_neighbors(self, x: int, y: int)
        requires
            self.wf(),
            self.all_dead(),
        ensures
            self.alive_neighbors(x, y) == 0,
    {
        assert forall|a: int, b: int| !self.alive_at(a, b) by {
            if self.dimensions.in_bounds(a, b) {
                self.dimensions.lemma_index_in_range(a, b);
            }
        }
    }
}

} // verus!
