//! Walking over the positions of a grid, column by column.

use itertools::structs::Product;
use itertools::Itertools;
use std::ops::Range;
use crate::dimensions::Dimensions;
use vstd::arithmetic::div_mod::lemma_fundamental_div_mod_converse;
use vstd::prelude::*;

verus! {

/// itertools' iterator over the pairs of two iterators.
#[verifier::external_type_specification]
#[verifier::external_body]
#[verifier::reject_recursive_types(I)]
#[verifier::reject_recursive_types(J)]
pub struct ExProduct<I: Iterator, J>(Product<I, J>);

/// The pairs that a walk has still to give, in the order in which it gives
/// them.
pub uninterp spec fn remaining(walk: Product<Range<usize>, Range<usize>>) -> Seq<(usize, usize)>;

/// The pairs `(x, y)` with `x` below `width` and `y` below `height`, ordered
/// by `x` first and by `y` second.
pub open spec fn column_order(width: int, height: int) -> Seq<(usize, usize)> {
    Seq::new((width * height) as nat, |k: int| ((k / height) as usize, (k % height) as usize))
}

/// `Itertools::cartesian_product` of the ranges `0..width` and `0..height`.
/// The walk gives each `x` of the first range, in order, with each `y` of the
/// second, in order: every `y` for one `x` before the next `x`.
#[verifier::external_body]
pub(crate) fn positions(width: usize, height: usize) -> (walk: Product<Range<usize>, Range<usize>>)
    ensures
        remaining(walk) == column_order(width as int, height as int),
{
    (0..width).cartesian_product(0..height)
}

/// `Iterator::next` of itertools' `Product`: hands out the first of the pairs
/// that the walk has still to give, or `None` where none is left.
#[verifier::external_body]
pub(crate) fn next_position(walk: &mut Product<Range<usize>, Range<usize>>) -> (position: Option<
    (usize, usize),
>)
    ensures
        remaining(*old(walk)).len() == 0 ==> position is None && remaining(*final(walk)).len() == 0,
        remaining(*old(walk)).len() > 0 ==> position == Some(remaining(*old(walk))[0]) && remaining(
            *final(walk),
        ) == remaining(*old(walk)).drop_first(),
{
    walk.next()
}

/// The storage index of the cell that the pair at `k` of the
/// column-by-column order names.
pub open spec fn column_index(dimensions: Dimensions, k: int) -> int {
    let order = column_order(dimensions.width(), dimensions.height());
    dimensions.index_of(order[k].0 as int, order[k].1 as int)
}

/// The column-by-column order has one pair for each cell of the grid, and
/// every pair names a cell of the grid.
pub proof fn lemma_column_order_in_bounds(dimensions: Dimensions)
    ensures
        column_order(dimensions.width(), dimensions.height()).len() == dimensions.cell_count(),
        forall|k: int|
            0 <= k < dimensions.cell_count() ==> 0 <= #[trigger] column_index(dimensions, k)
                < dimensions.cell_count(),
        forall|k: int|
            0 <= k < dimensions.cell_count() ==> dimensions.in_bounds(
                (#[trigger] column_order(dimensions.width(), dimensions.height())[k]).0 as int,
                column_order(dimensions.width(), dimensions.height())[k].1 as int,
            ),
{
    let order = column_order(dimensions.width(), dimensions.height());
    let transposed = Dimensions(dimensions.1, dimensions.0);
    assert(transposed.cell_count() == dimensions.cell_count()) by (nonlinear_arith)
        requires
            transposed.width() == dimensions.height(),
            transposed.height() == dimensions.width(),
    ;
    assert forall|k: int| 0 <= k < dimensions.cell_count() implies dimensions.in_bounds(
        (#[trigger] order[k]).0 as int,
        order[k].1 as int,
    ) && 0 <= column_index(dimensions, k) < dimensions.cell_count() by {
        transposed.lemma_position_in_bounds(k);
        dimensions.lemma_index_in_range(order[k].0 as int, order[k].1 as int);
    }
}

/// Every cell of the grid is named by a pair of the column-by-column order:
/// the cell at `(x, y)` by the pair at `x * height + y`.
pub proof fn lemma_column_order_covers(dimensions: Dimensions, index: int)
    requires
        0 <= index < dimensions.cell_count(),
    ensures
        ({
            let (x, y) = dimensions.position_of(index);
            let k = x * dimensions.height() + y;
            &&& 0 <= k < dimensions.cell_count()
            &&& column_order(dimensions.width(), dimensions.height())[k] == (x as usize, y as usize)
            &&& column_index(dimensions, k) == index
        }),
{
    let (x, y) = dimensions.position_of(index);
    let k = x * dimensions.height() + y;
    dimensions.lemma_position_in_bounds(index);
    dimensions.lemma_position_then_index(index);
    let transposed = Dimensions(dimensions.1, dimensions.0);
    assert(transposed.cell_count() == dimensions.cell_count()) by (nonlinear_arith)
        requires
            transposed.width() == dimensions.height(),
            transposed.height() == dimensions.width(),
    ;
    transposed.lemma_index_in_range(y, x);
    lemma_fundamental_div_mod_converse(k, dimensions.height(), x, y);
}

} // verus!
