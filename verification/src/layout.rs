//! Integer placement of terminal cards in the auto-fill grid.

use vstd::prelude::*;

verus! {

/// Row and column of the card at `index` in a grid of `columns` columns
/// (at least one).
pub open spec fn grid_cell_spec(index: nat, columns: nat) -> (nat, nat) {
    let c = if columns == 0 { 1 } else { columns };
    (index / c, index % c)
}

/// Row and column of a card (see [`grid_cell_spec`]).
pub fn grid_cell(index: usize, columns: usize) -> (r: (usize, usize))
    ensures
        (r.0 as nat, r.1 as nat) == grid_cell_spec(index as nat, columns as nat),
{
    let c = if columns == 0 {
        1
    } else {
        columns
    };
    (index / c, index % c)
}

/// The card whose anchor a link uses: `index`, clamped to the last of
/// `count` cards (the first when there are none).
pub open spec fn anchor_index_spec(count: nat, index: nat) -> nat {
    let last = if count == 0 { 0 } else { (count - 1) as nat };
    if index < last { index } else { last }
}

/// The card whose anchor a link uses (see [`anchor_index_spec`]).
pub fn anchor_index(count: usize, index: usize) -> (r: usize)
    ensures
        r as nat == anchor_index_spec(count as nat, index as nat),
{
    let last = count.saturating_sub(1);
    if index < last {
        index
    } else {
        last
    }
}

/// Cards fill rows left to right: the card at `index` sits at
/// `row * columns + column`, in a column left of `columns`.
pub proof fn law_grid_cell_position(index: nat, columns: nat)
    requires
        columns >= 1,
    ensures
        grid_cell_spec(index, columns).0 * columns + grid_cell_spec(index, columns).1 == index,
        grid_cell_spec(index, columns).1 < columns,
{
    vstd::arithmetic::div_mod::lemma_fundamental_div_mod(index as int, columns as int);
    vstd::arithmetic::mul::lemma_mul_is_commutative((index / columns) as int, columns as int);
}

/// Consecutive cards in a row: the card after one that is not last in its
/// row sits in the same row, one column to the right.
pub proof fn law_grid_cell_next_in_row(index: nat, columns: nat)
    requires
        columns >= 1,
        grid_cell_spec(index, columns).1 + 1 < columns,
    ensures
        grid_cell_spec(index + 1, columns).0 == grid_cell_spec(index, columns).0,
        grid_cell_spec(index + 1, columns).1 == grid_cell_spec(index, columns).1 + 1,
{
    let q = index / columns;
    let r = index % columns;
    vstd::arithmetic::div_mod::lemma_fundamental_div_mod(index as int, columns as int);
    vstd::arithmetic::div_mod::lemma_fundamental_div_mod_converse(
        (index + 1) as int,
        columns as int,
        q as int,
        (r + 1) as int,
    );
}

} // verus!
