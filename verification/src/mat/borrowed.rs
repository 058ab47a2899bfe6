//! Borrowed views of a matrix.

use crate::error::Error;
use crate::mat::grid::{grid_text, render_grid, shown, shows};
use crate::mat::layout::{
    lemma_stripe_in_bounds, lemma_stripes_in_bounds, ColMajor, MatLayout, MatLayouts, RowMajor,
};
use crate::mat::model::MatView;
use crate::mat::range::{
    check_col, check_range, check_row, end_of, range_fits, start_of, to_range, Endpoint,
};
use crate::utils::bool_to_int;
use std::ops::Index;
use vstd::pervasive::unreached;
use vstd::prelude::*;

verus! {

/// A matrix whose buffer is borrowed: a whole matrix, or a range of the rows
/// (or columns) of one.
pub struct Mat<'a, T, L: MatLayout> {
    values: &'a [T],
    nrow: usize,
    ncol: usize,
    layout: L,
}

impl<'a, T, L: MatLayout> Clone for Mat<'a, T, L> {
    fn clone(&self) -> (copy: Self)
        ensures
            copy == *self,
    {
        *self
    }
}

impl<'a, T, L: MatLayout> Copy for Mat<'a, T, L> {

}

impl<'a, T, L: MatLayout> View for Mat<'a, T, L> {
    type V = MatView<T>;

    closed spec fn view(&self) -> MatView<T> {
        MatView {
            values: self.values@,
            nrow: self.nrow as nat,
            ncol: self.ncol as nat,
            layout: self.layout.layout_spec(),
        }
    }
}

impl<'a, T> Mat<'a, T, RowMajor> {
    /// The matrix of one row that holds `row`.
    pub fn from_row(row: &'a [T]) -> (m: Self)
        ensures
            m@.wf(),
            m@ == (MatView {
                values: row@,
                nrow: 1,
                ncol: row@.len(),
                layout: MatLayouts::RowMajor,
            }),
    {
        Mat { values: row, nrow: 1, ncol: row.len(), layout: RowMajor }
    }
}

impl<'a, T, L: MatLayout> Mat<'a, T, L> {
    /// The matrix with these parts, whatever they are.
    pub(crate) fn over(values: &'a [T], nrow: usize, ncol: usize, layout: L) -> (m: Self)
        ensures
            m@ == (MatView {
                values: values@,
                nrow: nrow as nat,
                ncol: ncol as nat,
                layout: layout.layout_spec(),
            }),
    {
        Mat { values, nrow, ncol, layout }
    }

    /// The matrix of `nrow` rows and `ncol` columns over `values`, which must
    /// hold one element for each position. A buffer of another length is an
    /// error: it is never cut or filled up.
    pub fn from_slice(values: &'a [T], nrow: usize, ncol: usize, layout: L) -> (made: Result<
        Self,
        Error,
    >)
        ensures
            made is Ok <==> values@.len() == nrow * ncol,
            made matches Ok(m) ==> m@.wf() && m@ == (MatView {
                values: values@,
                nrow: nrow as nat,
                ncol: ncol as nat,
                layout: layout.layout_spec(),
            }),
            made is Err ==> made->Err_0 == Error::ShapeMismatch,
    {
        proof {
            assert(values@.len() == values.len());
        }
        match nrow.checked_mul(ncol) {
            Some(len) => {
                if values.len() == len {
                    Ok(Mat { values, nrow, ncol, layout })
                } else {
                    Err(Error::ShapeMismatch)
                }
            },
            None => Err(Error::ShapeMismatch),
        }
    }

    /// The number of rows.
    pub fn nrow(&self) -> (n: usize)
        ensures
            n == self@.nrow,
    {
        self.nrow
    }

    /// The number of columns.
    pub fn ncol(&self) -> (n: usize)
        ensures
            n == self@.ncol,
    {
        self.ncol
    }

    /// The layout of the buffer.
    pub fn layout(&self) -> (l: MatLayouts)
        ensures
            l == self@.layout,
    {
        self.layout.layout()
    }

    /// The buffer, in the order of the layout.
    pub fn as_slice(&self) -> (values: &'a [T])
        ensures
            values@ == self@.values,
    {
        self.values
    }

    /// 1 if the buffer is row-major, 0 if it is column-major.
    pub fn is_row_major(&self) -> (flag: i32)
        ensures
            flag == (if self@.layout == MatLayouts::RowMajor {
                1i32
            } else {
                0i32
            }),
    {
        bool_to_int(self.layout.layout() == MatLayouts::RowMajor)
    }

    /// The element at (`row`, `col`).
    pub fn at(&self, row: usize, col: usize) -> (element: &'a T)
        requires
            self@.wf(),
            self@.has(row as int, col as int),
        ensures
            *element == self@.at(row as int, col as int),
    {
        match self.get(row, col) {
            Ok(element) => element,
            Err(_) => unreached(),
        }
    }

    /// The element at (`row`, `col`), if that is a position of the matrix.
    pub fn get(&self, row: usize, col: usize) -> (found: Result<&'a T, Error>)
        requires
            self@.wf(),
        ensures
            found is Ok <==> self@.has(row as int, col as int),
            found matches Ok(element) ==> *element == self@.at(row as int, col as int),
            found is Err ==> found->Err_0 == Error::IndexOutOfBounds,
    {
        match check_row(row, self.nrow) {
            Ok(()) => {},
            Err(e) => {
                return Err(e);
            },
        }
        match check_col(col, self.ncol) {
            Ok(()) => {},
            Err(e) => {
                return Err(e);
            },
        }
        proof {
            assert(self.values@.len() == self.values.len());
        }
        let index = self.layout.to_index(row, col, self.nrow, self.ncol);
        Ok(&self.values[index])
    }
}

impl<'a, T, L: MatLayout> Mat<'a, T, L> {
    /// The matrix drawn as a table, whatever its layout: one line for each
    /// row, one column for each column, each element as `show` renders it.
    pub fn to_grid(&self, show: impl Fn(&T) -> String) -> (text: String)
        requires
            self@.wf(),
            forall|r: int, c: int|
                self@.has(r, c) ==> call_requires(show, (&#[trigger] self@.at(r, c),)),
        ensures
            exists|cells: Seq<Seq<Seq<char>>>|
                shown(show, self@, cells) && text@ == #[trigger] grid_text(cells, self@.ncol),
    {
        let mut cells: Vec<Vec<String>> = Vec::new();
        let mut row: usize = 0;
        while row < self.nrow
            invariant
                self@.wf(),
                forall|r: int, c: int|
                    self@.has(r, c) ==> call_requires(show, (&#[trigger] self@.at(r, c),)),
                row <= self.nrow,
                cells@.len() == row,
                forall|r: int| 0 <= r < row ==> (#[trigger] cells@[r])@.len() == self.ncol,
                forall|r: int, c: int|
                    0 <= r < row && 0 <= c < self.ncol ==> shows(
                        show,
                        self@.at(r, c),
                        #[trigger] cells@[r]@[c]@,
                    ),
            decreases self.nrow - row,
        {
            let mut line: Vec<String> = Vec::new();
            let mut col: usize = 0;
            while col < self.ncol
                invariant
                    self@.wf(),
                    forall|r: int, c: int|
                        self@.has(r, c) ==> call_requires(show, (&#[trigger] self@.at(r, c),)),
                    row < self.nrow,
                    col <= self.ncol,
                    line@.len() == col,
                    forall|c: int|
                        0 <= c < col ==> shows(show, self@.at(row as int, c), #[trigger] line@[c]@),
                decreases self.ncol - col,
            {
                let element = self.at(row, col);
                assert(self@.has(row as int, col as int));
                let text = show(element);
                line.push(text);
                col += 1;
            }
            cells.push(line);
            row += 1;
        }
        render_grid(&cells, self.ncol)
    }
}

impl<'a, T> Mat<'a, T, ColMajor> {
    /// The elements of column `col`, from the first row to the last.
    pub fn col(&self, col: usize) -> (values: &'a [T])
        requires
            self@.wf(),
            col < self@.ncol,
        ensures
            self@.layout == MatLayouts::ColMajor,
            values@ == self@.col(col as int),
            values@.len() == self@.nrow,
    {
        match check_col(col, self.ncol) {
            Ok(()) => {
                proof {
                    assert(self.values@.len() == self.values.len());
                    assert(self.ncol * self.nrow == self.nrow * self.ncol) by (nonlinear_arith);
                    lemma_stripe_in_bounds(col as int, self.ncol as int, self.nrow as int);
                }
                let start = col * self.nrow;
                &self.values[start..start + self.nrow]
            },
            Err(_) => unreached(),
        }
    }

    /// The columns from `start` to `end`, as a matrix over the same buffer.
    pub fn cols(&self, start: Endpoint, end: Endpoint) -> (part: Self)
        requires
            self@.wf(),
            range_fits(start_of(start), end_of(end, self@.ncol as int), self@.ncol as int),
        ensures
            self@.layout == MatLayouts::ColMajor,
            part@.wf(),
            part@ == self@.cols(start_of(start), end_of(end, self@.ncol as int)),
    {
        let range = match to_range(start, end, self.ncol) {
            Ok(range) => range,
            Err(_) => unreached(),
        };
        match check_range(&range, self.ncol) {
            Ok(()) => {
                proof {
                    assert(self.values@.len() == self.values.len());
                    assert(self.ncol * self.nrow == self.nrow * self.ncol) by (nonlinear_arith);
                    lemma_stripes_in_bounds(
                        range.start as int,
                        range.end as int,
                        self.ncol as int,
                        self.nrow as int,
                    );
                    self@.lemma_cols(range.start as int, range.end as int);
                }
                Mat {
                    values: &self.values[range.start * self.nrow..range.end * self.nrow],
                    nrow: self.nrow,
                    ncol: range.end - range.start,
                    layout: self.layout,
                }
            },
            Err(_) => unreached(),
        }
    }
}

impl<'a, T> Mat<'a, T, RowMajor> {
    /// The elements of row `row`, from the first column to the last.
    pub fn row(&self, row: usize) -> (values: &'a [T])
        requires
            self@.wf(),
            row < self@.nrow,
        ensures
            self@.layout == MatLayouts::RowMajor,
            values@ == self@.row(row as int),
            values@.len() == self@.ncol,
    {
        match check_row(row, self.nrow) {
            Ok(()) => {
                proof {
                    assert(self.values@.len() == self.values.len());
                    lemma_stripe_in_bounds(row as int, self.nrow as int, self.ncol as int);
                }
                let start = row * self.ncol;
                &self.values[start..start + self.ncol]
            },
            Err(_) => unreached(),
        }
    }

    /// The rows from `start` to `end`, as a matrix over the same buffer.
    pub fn rows(&self, start: Endpoint, end: Endpoint) -> (part: Self)
        requires
            self@.wf(),
            range_fits(start_of(start), end_of(end, self@.nrow as int), self@.nrow as int),
        ensures
            self@.layout == MatLayouts::RowMajor,
            part@.wf(),
            part@ == self@.rows(start_of(start), end_of(end, self@.nrow as int)),
    {
        let range = match to_range(start, end, self.nrow) {
            Ok(range) => range,
            Err(_) => unreached(),
        };
        match check_range(&range, self.nrow) {
            Ok(()) => {
                proof {
                    assert(self.values@.len() == self.values.len());
                    lemma_stripes_in_bounds(
                        range.start as int,
                        range.end as int,
                        self.nrow as int,
                        self.ncol as int,
                    );
                }
                Mat {
                    values: &self.values[range.start * self.ncol..range.end * self.ncol],
                    nrow: range.end - range.start,
                    ncol: self.ncol,
                    layout: self.layout,
                }
            },
            Err(_) => unreached(),
        }
    }
}

impl<'a, T, L: MatLayout> vstd::std_specs::core::IndexSpecImpl<[usize; 2]> for Mat<'a, T, L> {
    open spec fn index_req(&self, index: &[usize; 2]) -> bool {
        self@.wf() && self@.has(index[0] as int, index[1] as int)
    }
}

impl<'a, T, L: MatLayout> Index<[usize; 2]> for Mat<'a, T, L> {
    type Output = T;

    /// The element at the row and the column that `index` holds, in this order.
    fn index(&self, index: [usize; 2]) -> (element: &T)
        ensures
            *element == self@.at(index[0] as int, index[1] as int),
    {
        self.at(index[0], index[1])
    }
}

/// What can be borrowed as a [`Mat`].
pub trait AsMat<T> {
    /// The layout of the matrix that is borrowed.
    type Layout: MatLayout;

    /// The matrix that is borrowed.
    spec fn mat(&self) -> MatView<T>;

    /// Borrows the matrix.
    fn as_mat(&self) -> (m: Mat<'_, T, Self::Layout>)
        ensures
            m@ == self.mat(),
    ;
}

impl<T, L: MatLayout> AsMat<T> for Mat<'_, T, L> {
    type Layout = L;

    open spec fn mat(&self) -> MatView<T> {
        self@
    }

    fn as_mat(&self) -> Mat<'_, T, L> {
        *self
    }
}

impl<M: AsMat<T>, T> AsMat<T> for &M {
    type Layout = M::Layout;

    open spec fn mat(&self) -> MatView<T> {
        (*self).mat()
    }

    fn as_mat(&self) -> Mat<'_, T, Self::Layout> {
        (*self).as_mat()
    }
}

} // verus!
