//! Cells drawn at random.

use crate::cell::{Cell, Proportion};
use crate::dimensions::Dimensions;
use vstd::prelude::*;

verus! {

/// `rand::random::<u64>()`: one draw from the generator of the running
/// thread. Nothing is promised of its value.
#[verifier::external_body]
fn random_draw() -> (draw: u64) {
    rand::random()
}

/// As many cells as a grid of the given shape holds, each drawn on its own:
/// dead with the probability `p`, alive otherwise. Where `p` is zero no draw
/// gives a dead cell.
pub fn random_cells(dimensions: Dimensions, p: Proportion) -> (cells: Vec<Cell>)
    requires
        dimensions.cell_count() <= usize::MAX,
    ensures
        cells@.len() == dimensions.cell_count(),
        p == 0 ==> forall|i: int| 0 <= i < cells@.len() ==> cells@[i] == Cell::Alive,
{
    let count: usize = dimensions.0 * dimensions.1;
    let mut cells: Vec<Cell> = Vec::new();
    let mut filled: usize = 0;
    while filled < count
        invariant
            filled <= count,
            cells@.len() == filled,
            p == 0 ==> forall|i: int| 0 <= i < cells@.len() ==> cells@[i] == Cell::Alive,
        decreases count - filled,
    {
        let draw: u64 = random_draw();
        cells.push(Cell::from_draw(draw, p));
        filled = filled + 1;
    }
    cells
}

} // verus!
