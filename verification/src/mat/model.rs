//! The mathematical model of a matrix.

use crate::mat::layout::{
    col_of, lemma_offset_covers, lemma_offset_in_bounds, lemma_offset_injective,
    lemma_stripe_in_bounds, lemma_stripes_in_bounds, offset, row_of, MatLayouts,
};
use vstd::prelude::*;

verus! {

/// What a matrix is: a flat buffer, a shape and a layout.
pub struct MatView<T> {
    /// The elements in the order in which the buffer holds them.
    pub values: Seq<T>,
    /// The number of rows.
    pub nrow: nat,
    /// The number of columns.
    pub ncol: nat,
    /// The rule by which a position maps to an offset in `values`.
    pub layout: MatLayouts,
}

/// Every row of `rows` holds `width` elements.
pub open spec fn uniform<T>(rows: Seq<Seq<T>>, width: nat) -> bool {
    forall|r: int| 0 <= r < rows.len() ==> (#[trigger] rows[r]).len() == width
}

/// The rows that `rows` holds as arrays, each as a sequence.
pub open spec fn array_rows<T, const N: usize>(rows: Seq<[T; N]>) -> Seq<Seq<T>> {
    rows.map_values(|row: [T; N]| row@)
}

/// The rows that `rows` holds as vectors, each as a sequence.
pub open spec fn vec_rows<T>(rows: Seq<Vec<T>>) -> Seq<Seq<T>> {
    rows.map_values(|row: Vec<T>| row@)
}

/// Each element of `copy` is a clone of the element of `source` at its place.
pub open spec fn cloned_seq<T: Clone>(source: Seq<T>, copy: Seq<T>) -> bool {
    &&& source.len() == copy.len()
    &&& forall|i: int| 0 <= i < source.len() ==> cloned::<T>(source[i], #[trigger] copy[i])
}

impl<T> MatView<T> {
    /// The buffer holds one element for each position.
    pub open spec fn wf(self) -> bool {
        self.values.len() == self.nrow * self.ncol
    }

    /// (`row`, `col`) is a position of the matrix.
    pub open spec fn has(self, row: int, col: int) -> bool {
        0 <= row < self.nrow && 0 <= col < self.ncol
    }

    /// The offset in `values` of the element at (`row`, `col`).
    pub open spec fn index_of(self, row: int, col: int) -> int {
        offset(self.layout, row, col, self.nrow as int, self.ncol as int)
    }

    /// The element at (`row`, `col`).
    pub open spec fn at(self, row: int, col: int) -> T {
        self.values[self.index_of(row, col)]
    }

    /// The matrix with `values` for its buffer.
    pub open spec fn with_values(self, values: Seq<T>) -> Self {
        MatView { values, ..self }
    }

    /// The matrix with `value` at (`row`, `col`).
    pub open spec fn set(self, row: int, col: int, value: T) -> Self {
        self.with_values(self.values.update(self.index_of(row, col), value))
    }

    /// The `index`-th stripe of `width` adjacent elements of the buffer.
    pub open spec fn stripe(self, index: int, width: nat) -> Seq<T> {
        self.values.subrange(index * width, index * width + width)
    }

    /// The matrix with `values` in place of the `index`-th stripe of `width`
    /// adjacent elements.
    pub open spec fn set_stripe(self, index: int, width: nat, values: Seq<T>) -> Self {
        self.with_values(
            self.values.subrange(0, index * width) + values + self.values.subrange(
                index * width + width,
                self.values.len() as int,
            ),
        )
    }

    /// The elements of row `row`, as a row-major buffer holds them.
    pub open spec fn row(self, row: int) -> Seq<T> {
        self.stripe(row, self.ncol)
    }

    /// The elements of column `col`, as a column-major buffer holds them.
    pub open spec fn col(self, col: int) -> Seq<T> {
        self.stripe(col, self.nrow)
    }

    /// The row-major matrix with `values` for its row `row`.
    pub open spec fn set_row(self, row: int, values: Seq<T>) -> Self {
        self.set_stripe(row, self.ncol, values)
    }

    /// The column-major matrix with `values` for its column `col`.
    pub open spec fn set_col(self, col: int, values: Seq<T>) -> Self {
        self.set_stripe(col, self.nrow, values)
    }

    /// The rows from `start` up to `end` of a row-major matrix.
    pub open spec fn rows(self, start: int, end: int) -> Self {
        MatView {
            values: self.values.subrange(start * self.ncol, end * self.ncol),
            nrow: (end - start) as nat,
            ..self
        }
    }

    /// The columns from `start` up to `end` of a column-major matrix.
    pub open spec fn cols(self, start: int, end: int) -> Self {
        MatView {
            values: self.values.subrange(start * self.nrow, end * self.nrow),
            ncol: (end - start) as nat,
            ..self
        }
    }

    /// The matrix of the same shape and layout that holds `f` of each element.
    pub open spec fn map<U>(self, f: spec_fn(T) -> U) -> MatView<U> {
        MatView {
            values: self.values.map_values(f),
            nrow: self.nrow,
            ncol: self.ncol,
            layout: self.layout,
        }
    }

    /// The row-major matrix of `ncol` columns whose rows are `rows`.
    pub open spec fn of_rows(rows: Seq<Seq<T>>, ncol: nat) -> Self {
        MatView { values: rows.flatten(), nrow: rows.len(), ncol, layout: MatLayouts::RowMajor }
    }

    /// Every position of the matrix has its own place in the buffer.
    pub proof fn lemma_index_of(self, row: int, col: int)
        requires
            self.wf(),
            self.has(row, col),
        ensures
            0 <= self.index_of(row, col) < self.values.len(),
    {
        lemma_offset_in_bounds(self.layout, row, col, self.nrow as int, self.ncol as int);
    }

    /// Writing an element leaves the shape as it is, is read back at the same
    /// position, and changes no other position.
    pub proof fn lemma_set(self, row: int, col: int, value: T)
        requires
            self.wf(),
            self.has(row, col),
        ensures
            self.set(row, col, value).wf(),
            self.set(row, col, value).nrow == self.nrow,
            self.set(row, col, value).ncol == self.ncol,
            self.set(row, col, value).layout == self.layout,
            self.set(row, col, value).at(row, col) == value,
            forall|r: int, c: int|
                self.has(r, c) && (r != row || c != col) ==> #[trigger] self.set(
                    row,
                    col,
                    value,
                ).at(r, c) == self.at(r, c),
    {
        self.lemma_index_of(row, col);
        assert forall|r: int, c: int| self.has(r, c) && (r != row || c != col) implies #[trigger]
        self.set(row, col, value).at(r, c) == self.at(r, c) by {
            self.lemma_index_of(r, c);
            if self.index_of(r, c) == self.index_of(row, col) {
                lemma_offset_injective(
                    self.layout,
                    r,
                    c,
                    row,
                    col,
                    self.nrow as int,
                    self.ncol as int,
                );
            }
        }
    }

    /// Two matrices of one shape and layout that agree at every position have
    /// the same buffer.
    pub proof fn lemma_ext(self, other: Self)
        requires
            self.wf(),
            other.wf(),
            self.nrow == other.nrow,
            self.ncol == other.ncol,
            self.layout == other.layout,
            forall|r: int, c: int| self.has(r, c) ==> self.at(r, c) == other.at(r, c),
        ensures
            self == other,
    {
        assert forall|i: int| 0 <= i < self.values.len() implies self.values[i]
            == other.values[i] by {
            lemma_offset_covers(self.layout, i, self.nrow as int, self.ncol as int);
            let r = row_of(self.layout, i, self.nrow as int, self.ncol as int);
            let c = col_of(self.layout, i, self.nrow as int, self.ncol as int);
            assert(self.at(r, c) == other.at(r, c));
        }
        assert(self.values =~= other.values);
    }

    /// A row of a row-major matrix holds the elements of that row, from the
    /// first column to the last.
    pub proof fn lemma_row(self, row: int)
        requires
            self.wf(),
            self.layout == MatLayouts::RowMajor,
            0 <= row < self.nrow,
        ensures
            self.row(row).len() == self.ncol,
            forall|c: int| 0 <= c < self.ncol ==> #[trigger] self.row(row)[c] == self.at(row, c),
    {
        lemma_stripe_in_bounds(row, self.nrow as int, self.ncol as int);
    }

    /// The row-major matrix that is built from rows of one length holds one
    /// element for each position, and hands each row back as it was given.
    pub proof fn lemma_of_rows(rows: Seq<Seq<T>>, ncol: nat)
        requires
            uniform(rows, ncol),
        ensures
            Self::of_rows(rows, ncol).wf(),
            forall|r: int|
                0 <= r < rows.len() ==> #[trigger] Self::of_rows(rows, ncol).row(r) == rows[r],
            forall|r: int, c: int|
                0 <= r < rows.len() && 0 <= c < ncol ==> #[trigger] Self::of_rows(rows, ncol).at(
                    r,
                    c,
                ) == rows[r][c],
        decreases rows.len(),
    {
        let whole = Self::of_rows(rows, ncol);
        if rows.len() == 0 {
            assert(rows.len() * ncol == 0) by (nonlinear_arith)
                requires
                    rows.len() == 0,
            ;
        } else {
            let front = rows.drop_last();
            let part = Self::of_rows(front, ncol);
            Self::lemma_of_rows(front, ncol);
            assert(rows =~= front.push(rows.last()));
            front.lemma_flatten_push(rows.last());
            assert(rows.len() * ncol == front.len() * ncol + ncol) by (nonlinear_arith)
                requires
                    rows.len() == front.len() + 1,
            ;
            assert forall|r: int| 0 <= r < rows.len() implies #[trigger] whole.row(r)
                == rows[r] by {
                if r < front.len() {
                    lemma_stripe_in_bounds(r, front.len() as int, ncol as int);
                    assert(whole.row(r) =~= part.row(r));
                }
            }
        }
        assert forall|r: int, c: int| 0 <= r < rows.len() && 0 <= c < ncol implies #[trigger]
        whole.at(r, c) == rows[r][c] by {
            whole.lemma_row(r);
        }
    }

    /// A column of a column-major matrix holds the elements of that column,
    /// from the first row to the last.
    pub proof fn lemma_col(self, col: int)
        requires
            self.wf(),
            self.layout == MatLayouts::ColMajor,
            0 <= col < self.ncol,
        ensures
            self.col(col).len() == self.nrow,
            forall|r: int| 0 <= r < self.nrow ==> #[trigger] self.col(col)[r] == self.at(r, col),
    {
        lemma_stripe_in_bounds(col, self.ncol as int, self.nrow as int);
    }

    /// Replacing one of `count` stripes by as many elements keeps the length of
    /// the buffer, is read back as that stripe, and changes no other stripe.
    pub proof fn lemma_set_stripe(self, index: int, count: nat, width: nat, values: Seq<T>)
        requires
            self.values.len() == count * width,
            0 <= index < count,
            values.len() == width,
        ensures
            self.set_stripe(index, width, values).values.len() == self.values.len(),
            self.set_stripe(index, width, values).stripe(index, width) == values,
            forall|i: int|
                0 <= i < count && i != index ==> #[trigger] self.set_stripe(
                    index,
                    width,
                    values,
                ).stripe(i, width) == self.stripe(i, width),
    {
        let after = self.set_stripe(index, width, values);
        lemma_stripe_in_bounds(index, count as int, width as int);
        assert forall|i: int| 0 <= i < count && i != index implies #[trigger] after.stripe(
            i,
            width,
        ) == self.stripe(i, width) by {
            lemma_stripe_in_bounds(i, count as int, width as int);
            if i < index {
                assert(i * width + width <= index * width) by (nonlinear_arith)
                    requires
                        i < index,
                        0 <= width,
                ;
            } else {
                assert(index * width + width <= i * width) by (nonlinear_arith)
                    requires
                        index < i,
                        0 <= width,
                ;
            }
        }
    }

    /// Replacing a row of a row-major matrix keeps the shape, is read back as
    /// that row, and changes no other row.
    pub proof fn lemma_set_row(self, row: int, values: Seq<T>)
        requires
            self.wf(),
            0 <= row < self.nrow,
            values.len() == self.ncol,
        ensures
            self.set_row(row, values).wf(),
            self.set_row(row, values).nrow == self.nrow,
            self.set_row(row, values).ncol == self.ncol,
            self.set_row(row, values).layout == self.layout,
            self.set_row(row, values).row(row) == values,
            forall|r: int|
                0 <= r < self.nrow && r != row ==> #[trigger] self.set_row(row, values).row(r)
                    == self.row(r),
    {
        self.lemma_set_stripe(row, self.nrow, self.ncol, values);
    }

    /// Replacing a column of a column-major matrix keeps the shape, is read
    /// back as that column, and changes no other column.
    pub proof fn lemma_set_col(self, col: int, values: Seq<T>)
        requires
            self.wf(),
            0 <= col < self.ncol,
            values.len() == self.nrow,
        ensures
            self.set_col(col, values).wf(),
            self.set_col(col, values).nrow == self.nrow,
            self.set_col(col, values).ncol == self.ncol,
            self.set_col(col, values).layout == self.layout,
            self.set_col(col, values).col(col) == values,
            forall|c: int|
                0 <= c < self.ncol && c != col ==> #[trigger] self.set_col(col, values).col(c)
                    == self.col(c),
    {
        self.lemma_set_stripe(col, self.ncol, self.nrow, values);
    }

    /// A range of rows of a row-major matrix is a matrix of those rows: row `i`
    /// of the range is row `start + i` of the whole.
    pub proof fn lemma_rows(self, start: int, end: int)
        requires
            self.wf(),
            0 <= start <= end <= self.nrow,
        ensures
            self.rows(start, end).wf(),
            self.rows(start, end).nrow == end - start,
            self.rows(start, end).ncol == self.ncol,
            self.rows(start, end).layout == self.layout,
            forall|i: int|
                0 <= i < end - start ==> #[trigger] self.rows(start, end).row(i) == self.row(
                    start + i,
                ),
            self.layout == MatLayouts::RowMajor ==> forall|i: int, c: int|
                0 <= i < end - start && 0 <= c < self.ncol ==> #[trigger] self.rows(start, end).at(
                    i,
                    c,
                ) == self.at(start + i, c),
    {
        let part = self.rows(start, end);
        let w = self.ncol as int;
        lemma_stripes_in_bounds(start, end, self.nrow as int, w);
        assert forall|i: int| 0 <= i < end - start implies #[trigger] part.row(i) == self.row(
            start + i,
        ) by {
            lemma_stripe_in_bounds(i, end - start, w);
            assert((start + i) * w == start * w + i * w) by (nonlinear_arith);
        }
        if self.layout == MatLayouts::RowMajor {
            assert forall|i: int, c: int|
                0 <= i < end - start && 0 <= c < self.ncol implies #[trigger] part.at(i, c)
                == self.at(start + i, c) by {
                lemma_stripe_in_bounds(i, end - start, w);
                assert((start + i) * w == start * w + i * w) by (nonlinear_arith);
            }
        }
    }

    /// A range of columns of a column-major matrix is a matrix of those
    /// columns: column `j` of the range is column `start + j` of the whole.
    pub proof fn lemma_cols(self, start: int, end: int)
        requires
            self.wf(),
            0 <= start <= end <= self.ncol,
        ensures
            self.cols(start, end).wf(),
            self.cols(start, end).nrow == self.nrow,
            self.cols(start, end).ncol == end - start,
            self.cols(start, end).layout == self.layout,
            forall|j: int|
                0 <= j < end - start ==> #[trigger] self.cols(start, end).col(j) == self.col(
                    start + j,
                ),
            self.layout == MatLayouts::ColMajor ==> forall|r: int, j: int|
                0 <= r < self.nrow && 0 <= j < end - start ==> #[trigger] self.cols(start, end).at(
                    r,
                    j,
                ) == self.at(r, start + j),
    {
        let part = self.cols(start, end);
        let h = self.nrow as int;
        lemma_stripes_in_bounds(start, end, self.ncol as int, h);
        assert((end - start) * h == h * (end - start)) by (nonlinear_arith);
        assert forall|j: int| 0 <= j < end - start implies #[trigger] part.col(j) == self.col(
            start + j,
        ) by {
            lemma_stripe_in_bounds(j, end - start, h);
            assert((start + j) * h == start * h + j * h) by (nonlinear_arith);
        }
        if self.layout == MatLayouts::ColMajor {
            assert forall|r: int, j: int|
                0 <= r < self.nrow && 0 <= j < end - start implies #[trigger] part.at(r, j)
                == self.at(r, start + j) by {
                lemma_stripe_in_bounds(j, end - start, h);
                assert((start + j) * h == start * h + j * h) by (nonlinear_arith);
            }
        }
    }

    /// Mapping keeps the shape and the layout, and holds `f` of the element at
    /// every position.
    pub proof fn lemma_map<U>(self, f: spec_fn(T) -> U)
        requires
            self.wf(),
        ensures
            self.map(f).wf(),
            self.map(f).nrow == self.nrow,
            self.map(f).ncol == self.ncol,
            self.map(f).layout == self.layout,
            forall|r: int, c: int|
                self.has(r, c) ==> #[trigger] self.map(f).at(r, c) == f(self.at(r, c)),
    {
        assert forall|r: int, c: int| self.has(r, c) implies #[trigger] self.map(f).at(r, c) == f(
            self.at(r, c),
        ) by {
            self.lemma_index_of(r, c);
        }
    }

    /// Mapping twice is mapping once with the two functions composed.
    pub proof fn lemma_map_map<U, V>(self, f: spec_fn(T) -> U, g: spec_fn(U) -> V)
        ensures
            self.map(f).map(g) == self.map(|x: T| g(f(x))),
    {
        assert(self.values.map_values(f).map_values(g) =~= self.values.map_values(|x: T| g(f(x))));
    }
}

} // verus!
