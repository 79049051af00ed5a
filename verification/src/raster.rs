//! Laying a world out on a window of square pixels: one coloured square for
//! each cell.

use crate::cell::Cell;
use crate::color::Color;
use crate::dimensions::Dimensions;
use crate::world::World;
use vstd::arithmetic::mul::lemma_mul_inequality;
use vstd::prelude::*;

verus! {

/// The size of a window and of the square that shows one cell in it, all in
/// screen points.
#[derive(Clone, Copy, Debug, PartialEq, Eq, Structural)]
pub struct Config {
    pub window_width: usize,
    pub window_height: usize,
    pub pixel_size: usize,
}

/// A filled square on the window: the corner nearest the window's origin, the
/// length of a side, and the colour.
#[derive(Clone, Copy, Debug, PartialEq, Eq, Structural)]
pub struct Square {
    pub x: i32,
    pub y: i32,
    pub side: u32,
    pub color: Color,
}

impl Config {
    /// A window of the given width and height, with cells of the given size.
    pub fn new(window_width: usize, window_height: usize, pixel_size: usize) -> (config: Config)
        ensures
            config == (Config { window_width, window_height, pixel_size }),
    {
        Config { window_width, window_height, pixel_size }
    }

    /// How many whole cells fit side by side in the window.
    pub fn pixel_count_x(&self) -> (count: usize)
        requires
            self.pixel_size > 0,
        ensures
            count == self.window_width as int / self.pixel_size as int,
    {
        self.window_width / self.pixel_size
    }

    /// How many whole cells fit one above the other in the window.
    pub fn pixel_count_y(&self) -> (count: usize)
        requires
            self.pixel_size > 0,
        ensures
            count == self.window_height as int / self.pixel_size as int,
    {
        self.window_height / self.pixel_size
    }

    /// Whether every square of a grid of the given shape can be written down:
    /// the grid is at most `i32::MAX` points wide and high, and the side of a
    /// square is at most `u32::MAX`.
    pub open spec fn fits(self, dimensions: Dimensions) -> bool {
        &&& self.pixel_size <= u32::MAX
        &&& dimensions.width() * self.pixel_size <= i32::MAX
        &&& dimensions.height() * self.pixel_size <= i32::MAX
    }

    /// The square that shows `cell` where it stands at `(x, y)`.
    pub open spec fn square(self, x: int, y: int, cell: Cell) -> Square {
        Square {
            x: (x * self.pixel_size) as i32,
            y: (y * self.pixel_size) as i32,
            side: self.pixel_size as u32,
            color: cell.shade(),
        }
    }
}

/// The squares that show the world, one for each cell and in the order in
/// which the cells are stored: the cell at `(x, y)` is the square of side
/// `pixel_size` whose corner is `(x * pixel_size, y * pixel_size)`, black where
/// the cell is alive and white where it is dead.
pub fn draw_world(world: &World, config: &Config) -> (squares: Vec<Square>)
    requires
        config.fits(world@.dimensions),
    ensures
        squares@.len() == world@.cells.len(),
        forall|i: int|
            0 <= i < squares@.len() ==> #[trigger] squares@[i] == config.square(
                world@.dimensions.position_of(i).0,
                world@.dimensions.position_of(i).1,
                world@.cells[i],
            ),
{
    let dimensions: Dimensions = world.dimensions();
    let cells: &Vec<Cell> = world.cells();
    let side: usize = config.pixel_size;
    let mut squares: Vec<Square> = Vec::new();
    let mut y: usize = 0;
    while y < dimensions.1
        invariant
            y <= dimensions.1,
            side == config.pixel_size,
            config.fits(dimensions),
            cells.len() == dimensions.cell_count(),
            squares@.len() == y * dimensions.0,
            forall|i: int|
                0 <= i < squares@.len() ==> #[trigger] squares@[i] == config.square(
                    dimensions.position_of(i).0,
                    dimensions.position_of(i).1,
                    cells@[i],
                ),
        decreases dimensions.1 - y,
    {
        let mut x: usize = 0;
        while x < dimensions.0
            invariant
                y < dimensions.1,
                x <= dimensions.0,
                side == config.pixel_size,
                config.fits(dimensions),
                cells.len() == dimensions.cell_count(),
                squares@.len() == y * dimensions.0 + x,
                forall|i: int|
                    0 <= i < squares@.len() ==> #[trigger] squares@[i] == config.square(
                        dimensions.position_of(i).0,
                        dimensions.position_of(i).1,
                        cells@[i],
                    ),
            decreases dimensions.0 - x,
        {
            proof {
                dimensions.lemma_index_in_range(x as int, y as int);
                dimensions.lemma_index_then_position(x as int, y as int);
                lemma_mul_inequality(x as int, dimensions.width(), side as int);
                lemma_mul_inequality(y as int, dimensions.height(), side as int);
            }
            let cell: Cell = cells[y * dimensions.0 + x];
            squares.push(
                Square {
                    x: (x * side) as i32,
                    y: (y * side) as i32,
                    side: side as u32,
                    color: cell.to_color(),
                },
            );
            x = x + 1;
        }
        y = y + 1;
        proof {
            assert(y * dimensions.0 == (y - 1) * dimensions.0 + dimensions.0) by (nonlinear_arith);
        }
    }
    proof {
        assert(dimensions.1 * dimensions.0 == dimensions.cell_count()) by (nonlinear_arith);
    }
    squares
}

} // verus!
