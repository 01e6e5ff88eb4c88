//! The layered keymap and its addressing.
//!
//! A keymap is a dense array of key actions per layer, stored in
//! non-volatile memory and addressed by a flat index derived from
//! `(row, column)`. The physical layout packs both halves' rows interleaved
//! by column pair, so the flat index formula below must be preserved
//! exactly; [`lemma_flat_index_injective`] and [`lemma_flat_index_covers`]
//! show it addresses every cell exactly once.
use vstd::arithmetic::div_mod::{
    lemma_div_pos_is_pos, lemma_fundamental_div_mod, lemma_fundamental_div_mod_converse_div,
    lemma_fundamental_div_mod_converse_mod, lemma_mod_bound, lemma_multiply_divide_lt,
};
use vstd::prelude::*;

use crate::keys::{Key, LayerDown, LayerUp, NoOpKey, TransparentUp};

verus! {

/// What one keymap cell does, the closed set of key behaviors.
#[derive(Clone, Copy, PartialEq, Eq, Structural, Debug)]
pub enum KeyAction {
    Plain(Key),
    NoOp(NoOpKey),
    Up(LayerUp),
    Down(LayerDown),
    Transparent(TransparentUp),
}

/// One layer: a dense, row-major array of key actions.
#[derive(Clone, Debug)]
pub struct Layer {
    pub keys: Vec<KeyAction>,
}

impl Layer {
    /// A layer covers every cell of the full (both halves) matrix.
    pub open spec fn wf(&self, rows_per_hand: u8, columns: u8) -> bool {
        self.keys@.len() == 2 * (rows_per_hand as int) * (columns as int)
    }
}

/// The entire keymap: one [`Layer`] per layer, immutable at runtime.
#[derive(Clone, Debug)]
pub struct Keymap {
    pub layers: Vec<Layer>,
}

impl Keymap {
    /// Every layer exists and has the full matrix's size.
    pub open spec fn wf(&self, layer_count: u8, rows_per_hand: u8, columns: u8) -> bool {
        &&& self.layers@.len() == layer_count
        &&& forall|l: int|
            0 <= l < layer_count ==> (#[trigger] self.layers@[l]).wf(rows_per_hand, columns)
    }
}

/// The flat keymap index of `(row, column)`.
///
/// Rows `[0, rows_per_hand)` belong to one sub-half and rows
/// `[rows_per_hand, 2 * rows_per_hand)` to the other; the two are packed
/// interleaved by column pair: a full keymap row holds `2 * columns`
/// entries, the first `columns` for one sub-half and the rest for the
/// other.
pub open spec fn spec_flat_index(row: int, column: int, rows_per_hand: int, columns: int) -> int {
    column + (row % rows_per_hand) * columns * 2 + if row >= rows_per_hand {
        columns
    } else {
        0
    }
}

/// Rows below `rows_per_hand` keep their index under `%`; rows of the
/// other sub-half lose exactly `rows_per_hand`.
pub proof fn lemma_row_mod(row: int, rows_per_hand: int)
    requires
        1 <= rows_per_hand,
        0 <= row < 2 * rows_per_hand,
    ensures
        row < rows_per_hand ==> row % rows_per_hand == row,
        row >= rows_per_hand ==> row % rows_per_hand == row - rows_per_hand,
{
    if row < rows_per_hand {
        lemma_fundamental_div_mod_converse_mod(row, rows_per_hand, 0, row);
    } else {
        lemma_fundamental_div_mod_converse_mod(row, rows_per_hand, 1, row - rows_per_hand);
    }
}

/// Computes the flat keymap index of `(row, column)`.
pub fn flat_index(row: u8, column: u8, rows_per_hand: u8, columns: u8) -> (r: usize)
    requires
        1 <= rows_per_hand,
        1 <= columns <= 8,
        row < 2 * rows_per_hand,
        column < columns,
    ensures
        r == spec_flat_index(row as int, column as int, rows_per_hand as int, columns as int),
        r < 2 * (rows_per_hand as int) * (columns as int),
{
    proof {
        lemma_flat_index_in_range(row as int, column as int, rows_per_hand as int, columns as int);
        lemma_mod_bound(row as int, rows_per_hand as int);
    }
    let m: usize = (row % rows_per_hand) as usize;
    proof {
        assert(m * (columns as usize) * 2 <= 254 * 8 * 2) by (nonlinear_arith)
            requires
                m <= 254,
                columns <= 8,
        ;
    }
    let base: usize = (column as usize) + m * (columns as usize) * 2;
    if row >= rows_per_hand {
        base + columns as usize
    } else {
        base
    }
}

/// The flat index stays within the keymap layer.
pub proof fn lemma_flat_index_in_range(row: int, column: int, rows_per_hand: int, columns: int)
    requires
        1 <= rows_per_hand,
        1 <= columns,
        0 <= row < 2 * rows_per_hand,
        0 <= column < columns,
    ensures
        0 <= spec_flat_index(row, column, rows_per_hand, columns) < 2 * rows_per_hand * columns,
{
    lemma_row_mod(row, rows_per_hand);
    let m = row % rows_per_hand;
    assert(0 <= m * columns * 2 <= (rows_per_hand - 1) * columns * 2) by (nonlinear_arith)
        requires
            0 <= m <= rows_per_hand - 1,
            1 <= columns,
    ;
    assert((rows_per_hand - 1) * columns * 2 + 2 * columns == 2 * rows_per_hand * columns)
        by (nonlinear_arith);
}

/// No two coordinates alias the same keymap cell.
///
/// For any two valid `(row, column)` pairs across both halves, equal flat
/// indexes force equal coordinates.
pub proof fn lemma_flat_index_injective(
    r1: int,
    c1: int,
    r2: int,
    c2: int,
    rows_per_hand: int,
    columns: int,
)
    requires
        1 <= rows_per_hand,
        1 <= columns,
        0 <= r1 < 2 * rows_per_hand,
        0 <= c1 < columns,
        0 <= r2 < 2 * rows_per_hand,
        0 <= c2 < columns,
        spec_flat_index(r1, c1, rows_per_hand, columns) == spec_flat_index(
            r2,
            c2,
            rows_per_hand,
            columns,
        ),
    ensures
        r1 == r2,
        c1 == c2,
{
    let i = spec_flat_index(r1, c1, rows_per_hand, columns);
    lemma_row_mod(r1, rows_per_hand);
    lemma_row_mod(r2, rows_per_hand);
    let m1 = r1 % rows_per_hand;
    let m2 = r2 % rows_per_hand;
    let h1: int = if r1 >= rows_per_hand {
        columns
    } else {
        0
    };
    let h2: int = if r2 >= rows_per_hand {
        columns
    } else {
        0
    };
    // Each index decomposes uniquely as (column + h) + m * (2 * columns)
    // with the low part in [0, 2 * columns); quotient and remainder agree.
    assert(m1 * columns * 2 == m1 * (2 * columns) && m2 * columns * 2 == m2 * (2 * columns))
        by (nonlinear_arith);
    lemma_fundamental_div_mod_converse_mod(i, 2 * columns, m1, c1 + h1);
    lemma_fundamental_div_mod_converse_div(i, 2 * columns, m1, c1 + h1);
    lemma_fundamental_div_mod_converse_mod(i, 2 * columns, m2, c2 + h2);
    lemma_fundamental_div_mod_converse_div(i, 2 * columns, m2, c2 + h2);
    assert(m1 == m2);
    assert(c1 + h1 == c2 + h2);
}

/// The row that a flat index decodes back to.
pub open spec fn spec_index_row(index: int, rows_per_hand: int, columns: int) -> int {
    if index % (2 * columns) >= columns {
        index / (2 * columns) + rows_per_hand
    } else {
        index / (2 * columns)
    }
}

/// The column that a flat index decodes back to.
pub open spec fn spec_index_column(index: int, columns: int) -> int {
    if index % (2 * columns) >= columns {
        index % (2 * columns) - columns
    } else {
        index % (2 * columns)
    }
}

/// The flat index formula covers `[0, rows * columns)` exactly once: with
/// injectivity, every index below `2 * rows_per_hand * columns` is hit by
/// exactly one coordinate, recovered by the inverse above.
pub proof fn lemma_flat_index_covers(index: int, rows_per_hand: int, columns: int)
    requires
        1 <= rows_per_hand,
        1 <= columns,
        0 <= index < 2 * rows_per_hand * columns,
    ensures
        0 <= spec_index_row(index, rows_per_hand, columns) < 2 * rows_per_hand,
        0 <= spec_index_column(index, columns) < columns,
        spec_flat_index(
            spec_index_row(index, rows_per_hand, columns),
            spec_index_column(index, columns),
            rows_per_hand,
            columns,
        ) == index,
{
    let q = index / (2 * columns);
    let rem = index % (2 * columns);
    lemma_fundamental_div_mod(index, 2 * columns);
    lemma_mod_bound(index, 2 * columns);
    lemma_div_pos_is_pos(index, 2 * columns);
    assert(2 * rows_per_hand * columns == (2 * columns) * rows_per_hand) by (nonlinear_arith);
    lemma_multiply_divide_lt(index, 2 * columns, rows_per_hand);
    let row = spec_index_row(index, rows_per_hand, columns);
    let col = spec_index_column(index, columns);
    lemma_row_mod(row, rows_per_hand);
    assert(q * (2 * columns) == q * columns * 2) by (nonlinear_arith);
    assert(index == (2 * columns) * q + rem);
    assert((2 * columns) * q == q * (2 * columns)) by (nonlinear_arith);
}

} // verus!
