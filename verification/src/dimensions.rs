//! The shape of a grid and the mapping between positions and storage indices.
//!
//! Cells are stored row by row: the cell in column `x` of row `y` has the
//! index `y * width + x`.

use vstd::arithmetic::div_mod::{
    lemma_fundamental_div_mod, lemma_fundamental_div_mod_converse, lemma_mod_bound,
    lemma_multiply_divide_lt,
};
use vstd::arithmetic::mul::{lemma_mul_inequality, lemma_mul_is_commutative};
use vstd::prelude::*;

verus! {

/// A position `(x, y)`: `x` is the column, `y` the row. Either may lie outside
/// the grid, on any side.
pub type Position = (isize, isize);

/// The shape of a grid: its width, then its height.
#[derive(Clone, Copy, Debug, PartialEq, Eq, Structural)]
pub struct Dimensions(pub usize, pub usize);

impl Dimensions {
    /// The number of columns.
    pub open spec fn width(self) -> int {
        self.0 as int
    }

    /// The number of rows.
    pub open spec fn height(self) -> int {
        self.1 as int
    }

    /// The number of cells of a grid of this shape.
    pub open spec fn cell_count(self) -> int {
        self.width() * self.height()
    }

    /// Whether `(x, y)` names a cell of the grid.
    pub open spec fn in_bounds(self, x: int, y: int) -> bool {
        0 <= x < self.width() && 0 <= y < self.height()
    }

    /// The row-major index of `(x, y)`.
    pub open spec fn index_of(self, x: int, y: int) -> int
        recommends
            self.in_bounds(x, y),
    {
        y * self.width() + x
    }

    /// The position stored at `index`, as `(x, y)`.
    pub open spec fn position_of(self, index: int) -> (int, int)
        recommends
            0 <= index < self.cell_count(),
    {
        (index % self.width(), index / self.width())
    }

    /// The index of the cell at `p`, or `None` where `p` lies outside the grid.
    pub fn get_index(&self, p: Position) -> (index: Option<usize>)
        requires
            self.cell_count() <= usize::MAX,
        ensures
            match index {
                Some(i) => {
                    &&& self.in_bounds(p.0 as int, p.1 as int)
                    &&& i == self.index_of(p.0 as int, p.1 as int)
                    &&& i < self.cell_count()
                    &&& self.position_of(i as int) == (p.0 as int, p.1 as int)
                },
                None => !self.in_bounds(p.0 as int, p.1 as int),
            },
    {
        if p.0 < 0 || p.1 < 0 {
            return None;
        }
        let x: usize = p.0 as usize;
        let y: usize = p.1 as usize;
        if x >= self.0 || y >= self.1 {
            return None;
        }
        proof {
            self.lemma_index_in_range(x as int, y as int);
            self.lemma_index_then_position(x as int, y as int);
        }
        Some(y * self.0 + x)
    }

    /// The position of the cell stored at `index`.
    pub fn get_pos(&self, index: usize) -> (p: Position)
        requires
            index < self.cell_count(),
            index <= isize::MAX,
        ensures
            (p.0 as int, p.1 as int) == self.position_of(index as int),
            self.in_bounds(p.0 as int, p.1 as int),
            self.index_of(p.0 as int, p.1 as int) == index,
    {
        proof {
            self.lemma_position_in_bounds(index as int);
            self.lemma_position_then_index(index as int);
        }
        let x: usize = index % self.0;
        let y: usize = index / self.0;
        (x as isize, y as isize)
    }

    /// The index of a cell of the grid is at least `y * width`, and less than
    /// the number of cells.
    pub proof fn lemma_index_in_range(self, x: int, y: int)
        requires
            self.in_bounds(x, y),
        ensures
            0 <= y * self.width() <= self.index_of(x, y) < self.cell_count(),
    {
        let w = self.width();
        let h = self.height();
        lemma_mul_inequality(0, y, w);
        lemma_mul_inequality(y + 1, h, w);
        assert((y + 1) * w == y * w + w) by (nonlinear_arith);
        lemma_mul_is_commutative(h, w);
    }

    /// The position stored at an index below the number of cells lies in the
    /// grid.
    pub proof fn lemma_position_in_bounds(self, index: int)
        requires
            0 <= index < self.cell_count(),
        ensures
            self.width() > 0,
            self.in_bounds(self.position_of(index).0, self.position_of(index).1),
            self.position_of(index).0 <= index,
            self.position_of(index).1 <= index,
    {
        let w = self.width();
        let h = self.height();
        assert(w > 0) by (nonlinear_arith)
            requires
                0 <= index < w * h,
                w >= 0,
        ;
        lemma_mod_bound(index, w);
        lemma_multiply_divide_lt(index, w, h);
        lemma_fundamental_div_mod(index, w);
        assert(0 <= index / w <= index) by (nonlinear_arith)
            requires
                index == w * (index / w) + index % w,
                0 <= index % w,
                w > 0,
                index >= 0,
        ;
    }

    /// Going from a position of the grid to its index and back gives the
    /// position again.
    pub proof fn lemma_index_then_position(self, x: int, y: int)
        requires
            self.in_bounds(x, y),
        ensures
            self.position_of(self.index_of(x, y)) == (x, y),
    {
        lemma_fundamental_div_mod_converse(self.index_of(x, y), self.width(), y, x);
    }

    /// Going from an index below the number of cells to its position and back
    /// gives the index again.
    pub proof fn lemma_position_then_index(self, index: int)
        requires
            0 <= index < self.cell_count(),
        ensures
            self.index_of(self.position_of(index).0, self.position_of(index).1) == index,
    {
        self.lemma_position_in_bounds(index);
        lemma_fundamental_div_mod(index, self.width());
        lemma_mul_is_commutative(self.width(), index / self.width());
    }
}

} // verus!
