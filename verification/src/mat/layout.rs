//! Physical layouts of a matrix and the index rule of each.

use std::fmt::Debug;
use vstd::arithmetic::div_mod::{
    lemma_fundamental_div_mod, lemma_fundamental_div_mod_converse, lemma_multiply_divide_lt,
};
use vstd::prelude::*;

verus! {

/// The two ways to lay the elements of a matrix out in a flat buffer.
#[derive(Copy, Clone, Debug, PartialEq, Eq, Structural)]
pub enum MatLayouts {
    /// The elements of one row are adjacent.
    RowMajor,
    /// The elements of one column are adjacent.
    ColMajor,
}

/// The offset in the flat buffer of the element at (`row`, `col`) in a matrix of
/// `nrow` rows and `ncol` columns.
pub open spec fn offset(layout: MatLayouts, row: int, col: int, nrow: int, ncol: int) -> int {
    match layout {
        MatLayouts::RowMajor => row * ncol + col,
        MatLayouts::ColMajor => col * nrow + row,
    }
}

/// The row of the element that lies at `index` in the flat buffer.
pub open spec fn row_of(layout: MatLayouts, index: int, nrow: int, ncol: int) -> int {
    match layout {
        MatLayouts::RowMajor => index / ncol,
        MatLayouts::ColMajor => index % nrow,
    }
}

/// The column of the element that lies at `index` in the flat buffer.
pub open spec fn col_of(layout: MatLayouts, index: int, nrow: int, ncol: int) -> int {
    match layout {
        MatLayouts::RowMajor => index % ncol,
        MatLayouts::ColMajor => index / nrow,
    }
}

/// `major * width + minor` with `minor` below `width` lies below `count * width`
/// and splits back into `major` and `minor`.
proof fn lemma_pack(major: int, minor: int, count: int, width: int)
    requires
        0 <= major < count,
        0 <= minor < width,
    ensures
        0 <= major * width + minor < count * width,
        (major * width + minor) / width == major,
        (major * width + minor) % width == minor,
{
    lemma_stripe_in_bounds(major, count, width);
    lemma_fundamental_div_mod_converse(major * width + minor, width, major, minor);
}

/// An `index` below `count * width` splits into a quotient below `count` and a
/// remainder below `width`.
proof fn lemma_unpack(index: int, count: int, width: int)
    requires
        0 <= index < count * width,
        0 <= count,
        0 <= width,
    ensures
        0 <= index / width < count,
        0 <= index % width < width,
        (index / width) * width + index % width == index,
{
    assert(width > 0) by (nonlinear_arith)
        requires
            0 <= index < count * width,
            0 <= count,
            0 <= width,
    ;
    assert(width * count == count * width) by (nonlinear_arith);
    lemma_multiply_divide_lt(index, width, count);
    lemma_fundamental_div_mod(index, width);
}

/// The `index`-th of `count` stripes of `width` elements lies within the
/// `count * width` elements of all of them.
pub proof fn lemma_stripe_in_bounds(index: int, count: int, width: int)
    requires
        0 <= index < count,
        0 <= width,
    ensures
        0 <= index * width,
        index * width + width <= count * width,
{
    assert(0 <= index * width) by (nonlinear_arith)
        requires
            0 <= index,
            0 <= width,
    ;
    assert(index * width + width <= count * width) by (nonlinear_arith)
        requires
            index < count,
            0 <= width,
    ;
}

/// A range of stripes lies within all of them, and the stripes of the range
/// are stripes of the whole.
pub proof fn lemma_stripes_in_bounds(start: int, end: int, count: int, width: int)
    requires
        0 <= start <= end <= count,
        0 <= width,
    ensures
        0 <= start * width <= end * width <= count * width,
        end * width - start * width == (end - start) * width,
{
    assert(0 <= start * width <= end * width <= count * width) by (nonlinear_arith)
        requires
            0 <= start <= end <= count,
            0 <= width,
    ;
    assert(end * width - start * width == (end - start) * width) by (nonlinear_arith);
}

/// Within the bounds of a matrix, `offset` stays within the buffer.
pub proof fn lemma_offset_in_bounds(layout: MatLayouts, row: int, col: int, nrow: int, ncol: int)
    requires
        0 <= row < nrow,
        0 <= col < ncol,
    ensures
        0 <= offset(layout, row, col, nrow, ncol) < nrow * ncol,
{
    match layout {
        MatLayouts::RowMajor => {
            lemma_pack(row, col, nrow, ncol);
        },
        MatLayouts::ColMajor => {
            lemma_pack(col, row, ncol, nrow);
        },
    }
}

/// `row_of` and `col_of` undo `offset`: no two positions of a matrix share an
/// offset.
pub proof fn lemma_offset_inverse(layout: MatLayouts, row: int, col: int, nrow: int, ncol: int)
    requires
        0 <= row < nrow,
        0 <= col < ncol,
    ensures
        row_of(layout, offset(layout, row, col, nrow, ncol), nrow, ncol) == row,
        col_of(layout, offset(layout, row, col, nrow, ncol), nrow, ncol) == col,
{
    match layout {
        MatLayouts::RowMajor => {
            lemma_pack(row, col, nrow, ncol);
        },
        MatLayouts::ColMajor => {
            lemma_pack(col, row, ncol, nrow);
        },
    }
}

/// Two positions within a matrix that have the same offset are the same position.
pub proof fn lemma_offset_injective(
    layout: MatLayouts,
    row1: int,
    col1: int,
    row2: int,
    col2: int,
    nrow: int,
    ncol: int,
)
    requires
        0 <= row1 < nrow,
        0 <= col1 < ncol,
        0 <= row2 < nrow,
        0 <= col2 < ncol,
        offset(layout, row1, col1, nrow, ncol) == offset(layout, row2, col2, nrow, ncol),
    ensures
        row1 == row2,
        col1 == col2,
{
    lemma_offset_inverse(layout, row1, col1, nrow, ncol);
    lemma_offset_inverse(layout, row2, col2, nrow, ncol);
}

/// Every index of the buffer is the offset of a position within the matrix,
/// the one that `row_of` and `col_of` give.
pub proof fn lemma_offset_covers(layout: MatLayouts, index: int, nrow: int, ncol: int)
    requires
        0 <= nrow,
        0 <= ncol,
        0 <= index < nrow * ncol,
    ensures
        0 <= row_of(layout, index, nrow, ncol) < nrow,
        0 <= col_of(layout, index, nrow, ncol) < ncol,
        offset(
            layout,
            row_of(layout, index, nrow, ncol),
            col_of(layout, index, nrow, ncol),
            nrow,
            ncol,
        ) == index,
{
    match layout {
        MatLayouts::RowMajor => {
            lemma_unpack(index, nrow, ncol);
        },
        MatLayouts::ColMajor => {
            lemma_unpack(index, ncol, nrow);
        },
    }
}

/// A value that stands for a layout, at compile time or at run time.
pub trait MatLayout: Copy + Clone + Send + Sync + Debug {
    /// The layout that this value stands for.
    spec fn layout_spec(&self) -> MatLayouts;

    /// The layout that this value stands for.
    fn layout(&self) -> (l: MatLayouts)
        ensures
            l == self.layout_spec(),
    ;

    /// The offset in the flat buffer of the element at (`row`, `col`) in a
    /// matrix of `nrow` rows and `ncol` columns.
    fn to_index(&self, row: usize, col: usize, nrow: usize, ncol: usize) -> (index: usize)
        requires
            row < nrow,
            col < ncol,
            nrow * ncol <= usize::MAX,
        ensures
            index == offset(self.layout_spec(), row as int, col as int, nrow as int, ncol as int),
            index < nrow * ncol,
    {
        proof {
            lemma_offset_in_bounds(
                MatLayouts::RowMajor,
                row as int,
                col as int,
                nrow as int,
                ncol as int,
            );
            lemma_offset_in_bounds(
                MatLayouts::ColMajor,
                row as int,
                col as int,
                nrow as int,
                ncol as int,
            );
        }
        match self.layout() {
            MatLayouts::RowMajor => row * ncol + col,
            MatLayouts::ColMajor => col * nrow + row,
        }
    }
}

impl MatLayout for MatLayouts {
    open spec fn layout_spec(&self) -> MatLayouts {
        *self
    }

    fn layout(&self) -> MatLayouts {
        *self
    }
}

impl Default for MatLayouts {
    /// The column-major layout.
    fn default() -> (l: Self)
        ensures
            l == MatLayouts::ColMajor,
    {
        MatLayouts::ColMajor
    }
}

/// The row-major layout, fixed at compile time.
#[derive(Copy, Clone, Debug)]
pub struct RowMajor;

impl MatLayout for RowMajor {
    open spec fn layout_spec(&self) -> MatLayouts {
        MatLayouts::RowMajor
    }

    fn layout(&self) -> MatLayouts {
        MatLayouts::RowMajor
    }
}

impl Default for RowMajor {
    fn default() -> (l: Self)
        ensures
            l == RowMajor,
    {
        RowMajor
    }
}

/// The column-major layout, fixed at compile time.
#[derive(Copy, Clone, Debug)]
pub struct ColMajor;

impl MatLayout for ColMajor {
    open spec fn layout_spec(&self) -> MatLayouts {
        MatLayouts::ColMajor
    }

    fn layout(&self) -> MatLayouts {
        MatLayouts::ColMajor
    }
}

impl Default for ColMajor {
    fn default() -> (l: Self)
        ensures
            l == ColMajor,
    {
        ColMajor
    }
}

} // verus!
