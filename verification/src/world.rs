//! The world: a grid of cells that lives through generations.

use crate::cell::{Cell, Proportion};
use crate::dimensions::{Dimensions, Position};
use crate::color::Color;
use crate::grid::Grid;
use crate::random::random_cells;
use crate::sweep::{
    column_index, column_order, lemma_column_order_covers, lemma_column_order_in_bounds,
    next_position, positions, remaining,
};
use vstd::prelude::*;
use vstd::string::*;

verus! {

/// The probability of a dead cell in a world that is filled at random, where
/// none is given: nine in ten.
pub const PROPORTION: Proportion = 16602069666338596454;

/// Why a world could not be made.
#[derive(Clone, Copy, Debug, PartialEq, Eq, Structural)]
pub enum WorldError {
    /// The number of cells given is not the width times the height.
    ShapeMismatch,
}

/// A grid of cells of a fixed shape, stored row by row.
#[derive(Debug)]
pub struct World {
    dimensions: Dimensions,
    cells: Vec<Cell>,
    proportion: Proportion,
}

impl View for World {
    type V = Grid;

    closed spec fn view(&self) -> Grid {
        Grid { dimensions: self.dimensions, cells: self.cells@ }
    }
}

impl World {
    #[verifier::type_invariant]
    spec fn well_formed(self) -> bool {
        self.cells.len() == self.dimensions.cell_count()
    }

    /// The probability of a dead cell with which the world is filled anew.
    pub closed spec fn spec_proportion(&self) -> Proportion {
        self.proportion
    }

    /// The world of the given shape that holds the given cells, row by row.
    /// It fails where the number of cells is not the width times the height.
    /// Where the world is later filled anew, dead cells have the probability
    /// [`PROPORTION`].
    pub fn new(dimensions: Dimensions, initial_cells: Vec<Cell>) -> (world: Result<
        World,
        WorldError,
    >)
        ensures
            initial_cells@.len() == dimensions.cell_count() ==> world is Ok,
            initial_cells@.len() != dimensions.cell_count() ==> world is Err,
            world matches Ok(w) ==> w@ == (Grid { dimensions, cells: initial_cells@ }) && w@.wf()
                && w.spec_proportion() == PROPORTION,
            world matches Err(e) ==> e == WorldError::ShapeMismatch,
    {
        let given: usize = initial_cells.len();
        match dimensions.0.checked_mul(dimensions.1) {
            Some(count) => {
                if given == count {
                    Ok(World { dimensions, cells: initial_cells, proportion: PROPORTION })
                } else {
                    Err(WorldError::ShapeMismatch)
                }
            },
            None => Err(WorldError::ShapeMismatch),
        }
    }

    /// A world of the given shape whose cells are drawn at random, each dead
    /// with the probability `p` and alive otherwise.
    pub fn new_random(dimensions: Dimensions, p: Proportion) -> (world: World)
        requires
            dimensions.cell_count() <= usize::MAX,
        ensures
            world@.dimensions == dimensions,
            world@.wf(),
            world.spec_proportion() == p,
            p == 0 ==> forall|i: int|
                0 <= i < world@.cells.len() ==> world@.cells[i] == Cell::Alive,
    {
        World { dimensions, cells: random_cells(dimensions, p), proportion: p }
    }

    /// The shape of the world.
    pub fn dimensions(&self) -> (dimensions: Dimensions)
        ensures
            dimensions == self@.dimensions,
            self@.wf(),
            dimensions.cell_count() <= usize::MAX,
    {
        proof {
            use_type_invariant(self);
        }
        self.dimensions
    }

    /// The cells of the world, row by row.
    pub fn cells(&self) -> (cells: &Vec<Cell>)
        ensures
            cells@ == self@.cells,
            self@.wf(),
    {
        proof {
            use_type_invariant(self);
        }
        &self.cells
    }

    /// The probability of a dead cell with which the world is filled anew.
    #[verifier::when_used_as_spec(spec_proportion)]
    pub fn proportion(&self) -> (p: Proportion)
        ensures
            p == self.spec_proportion(),
    {
        self.proportion
    }

    /// The cell at `p`, or `None` where `p` lies outside the world.
    pub fn get_cell(&self, p: Position) -> (cell: Option<&Cell>)
        ensures
            self@.dimensions.in_bounds(p.0 as int, p.1 as int) ==> cell == Some(
                &self@.cell_at(p.0 as int, p.1 as int),
            ),
            !self@.dimensions.in_bounds(p.0 as int, p.1 as int) ==> cell is None,
    {
        proof {
            use_type_invariant(self);
        }
        match self.dimensions.get_index(p) {
            Some(index) => Some(&self.cells[index]),
            None => None,
        }
    }

    /// The colour of the cell at `p`: black where it is alive, white where it
    /// is dead, and `None` where `p` lies outside the world.
    pub fn to_color(&self, p: Position) -> (color: Option<Color>)
        ensures
            self@.dimensions.in_bounds(p.0 as int, p.1 as int) ==> color == Some(
                self@.cell_at(p.0 as int, p.1 as int).shade(),
            ),
            !self@.dimensions.in_bounds(p.0 as int, p.1 as int) ==> color is None,
    {
        match self.get_cell(p) {
            Some(cell) => Some(cell.to_color()),
            None => None,
        }
    }

    /// The world as text: its rows from the top, each with one character for
    /// each cell, `#` for a live cell and a space for a dead one, and a line
    /// feed between one row and the next.
    pub fn represent(&self) -> (text: String)
        ensures
            text@ == self@.text(),
    {
        proof {
            use_type_invariant(self);
        }
        let width: usize = self.dimensions.0;
        let height: usize = self.dimensions.1;
        let mut text: String = String::new();
        let mut y: usize = 0;
        while y < height
            invariant
                self.dimensions == Dimensions(width, height),
                self.cells.len() == self.dimensions.cell_count(),
                y <= height,
                text@ == self@.rows_text(y as nat),
            decreases height - y,
        {
            if y > 0 {
                proof {
                    reveal_strlit("\n");
                }
                text.append("\n");
            }
            let ghost start = text@;
            let mut x: usize = 0;
            while x < width
                invariant
                    self.dimensions == Dimensions(width, height),
                    self.cells.len() == self.dimensions.cell_count(),
                    y < height,
                    x <= width,
                    text@ == start + self@.row_text(y as int).take(x as int),
                decreases width - x,
            {
                proof {
                    self.dimensions.lemma_index_in_range(x as int, y as int);
                }
                let glyph: String = self.cells[y * width + x].represent();
                text.append(glyph.as_str());
                x = x + 1;
                proof {
                    assert(self@.row_text(y as int).take(x as int) =~= self@.row_text(
                        y as int,
                    ).take(x - 1) + seq![self@.cell_at(x - 1, y as int).glyph()]);
                }
            }
            y = y + 1;
            proof {
                assert(self@.row_text(y - 1).take(width as int) =~= self@.row_text(y - 1));
                assert(text@ =~= self@.rows_text(y as nat));
            }
        }
        text
    }

    /// Discards the cells of the world and draws new ones at random, for the
    /// same shape and with the same probability of a dead cell.
    pub fn refresh_random(&mut self)
        ensures
            final(self)@.dimensions == old(self)@.dimensions,
            final(self)@.wf(),
            final(self).spec_proportion() == old(self).spec_proportion(),
            old(self).spec_proportion() == 0 ==> forall|i: int|
                0 <= i < final(self)@.cells.len() ==> final(self)@.cells[i] == Cell::Alive,
    {
        proof {
            use_type_invariant(&*self);
        }
        self.cells = random_cells(self.dimensions, self.proportion);
    }

    /// Whether `(x, y)` names a cell of the world that is alive.
    fn alive_at(&self, x: i128, y: i128) -> (alive: bool)
        ensures
            alive == self@.alive_at(x as int, y as int),
    {
        proof {
            use_type_invariant(self);
        }
        if 0 <= x && x < self.dimensions.0 as i128 && 0 <= y && y < self.dimensions.1 as i128 {
            proof {
                self.dimensions.lemma_index_in_range(x as int, y as int);
            }
            let index: usize = y as usize * self.dimensions.0 + x as usize;
            self.cells[index].is_alive()
        } else {
            false
        }
    }

    /// One for a live cell of the world at `(x, y)`, zero otherwise.
    fn alive_count_at(&self, x: i128, y: i128) -> (count: usize)
        ensures
            count == self@.alive_count_at(x as int, y as int),
    {
        if self.alive_at(x, y) {
            1
        } else {
            0
        }
    }

    /// How many of the eight positions around `(x, y)` name a live cell.
    fn alive_around(&self, x: i128, y: i128) -> (count: usize)
        requires
            isize::MIN <= x <= usize::MAX,
            isize::MIN <= y <= usize::MAX,
        ensures
            count == self@.alive_neighbors(x as int, y as int),
            count <= 8,
    {
        let above: usize = self.alive_count_at(x - 1, y - 1) + self.alive_count_at(x, y - 1)
            + self.alive_count_at(x + 1, y - 1);
        let beside: usize = self.alive_count_at(x - 1, y) + self.alive_count_at(x + 1, y);
        let below: usize = self.alive_count_at(x - 1, y + 1) + self.alive_count_at(x, y + 1)
            + self.alive_count_at(x + 1, y + 1);
        above + beside + below
    }

    /// How many of the eight neighbours of `p` are alive. A position outside
    /// the world counts for nothing: the world does not wrap around.
    pub fn count_alive_neighbors(&self, p: Position) -> (count: usize)
        ensures
            count == self@.alive_neighbors(p.0 as int, p.1 as int),
            count <= self@.neighbors(p.0 as int, p.1 as int) <= 8,
            self@.clipped(p.0 as int, p.1 as int) ==> count < 8,
    {
        proof {
            self@.lemma_alive_neighbors_bounds(p.0 as int, p.1 as int);
        }
        self.alive_around(p.0 as i128, p.1 as i128)
    }

    /// Moves the world on by one generation: every cell changes by the rule
    /// of the game, all at once, on the neighbour counts of the generation
    /// that ends.
    pub fn tick(&mut self)
        ensures
            final(self)@ == old(self)@.next(),
            final(self)@.wf(),
            final(self).spec_proportion() == old(self).spec_proportion(),
    {
        proof {
            use_type_invariant(&*self);
        }
        let dimensions: Dimensions = self.dimensions;
        let ghost order = column_order(dimensions.width(), dimensions.height());
        let ghost target = self@.next().cells;
        let ghost mut done: int = 0;
        let mut next: Vec<Cell> = self.cells.clone();
        let mut walk = positions(dimensions.0, dimensions.1);
        let mut position: Option<(usize, usize)> = next_position(&mut walk);
        proof {
            lemma_column_order_in_bounds(dimensions);
            assert(order.skip(0) =~= order);
            if order.len() > 0 {
                assert(order.drop_first() =~= order.skip(1));
            }
        }
        while position.is_some()
            invariant
                self.dimensions == dimensions,
                self.cells.len() == dimensions.cell_count(),
                order == column_order(dimensions.width(), dimensions.height()),
                order.len() == dimensions.cell_count(),
                target == self@.next().cells,
                next.len() == self.cells.len(),
                0 <= done <= order.len(),
                position is Some ==> done < order.len() && position == Some(order[done])
                    && remaining(walk) == order.skip(done + 1),
                position is None ==> done == order.len(),
                forall|k: int|
                    0 <= k < done ==> next@[#[trigger] column_index(dimensions, k)]
                        == target[column_index(dimensions, k)],
            decreases order.len() - done,
        {
            let (x, y) = position.unwrap();
            proof {
                lemma_column_order_in_bounds(dimensions);
                assert(column_index(dimensions, done) == dimensions.index_of(x as int, y as int));
                dimensions.lemma_index_then_position(x as int, y as int);
            }
            let count: usize = self.alive_around(x as i128, y as i128);
            let index: usize = y * dimensions.0 + x;
            let mut cell: Cell = self.cells[index];
            cell.step(count);
            next.set(index, cell);
            proof {
                done = done + 1;
                if done < order.len() {
                    assert(order.skip(done)[0] == order[done]);
                    assert(order.skip(done).drop_first() =~= order.skip(done + 1));
                }
            }
            position = next_position(&mut walk);
        }
        proof {
            assert forall|i: int| 0 <= i < target.len() implies next@[i] == target[i] by {
                lemma_column_order_covers(dimensions, i);
                let (x, y) = dimensions.position_of(i);
                assert(column_index(dimensions, x * dimensions.height() + y) == i);
            }
            assert(next@ =~= target);
        }
        self.cells = next;
    }
}

} // verus!
