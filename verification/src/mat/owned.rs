//! Owned matrix buffers.

use crate::error::Error;
use crate::mat::borrowed::{AsMat, Mat};
use crate::mat::grid::{grid_text, shown};
use crate::mat::layout::{lemma_stripe_in_bounds, ColMajor, MatLayout, MatLayouts, RowMajor};
use crate::mat::model::{array_rows, cloned_seq, uniform, vec_rows, MatView};
use crate::mat::range::{check_col, check_row, end_of, range_fits, start_of, Endpoint};
use std::ops::Index;
use vstd::pervasive::unreached;
use vstd::prelude::*;

verus! {

/// A matrix that owns its buffer, with rows for data and columns for features.
pub struct MatBuf<T, L = ColMajor> {
    values: Vec<T>,
    nrow: usize,
    ncol: usize,
    layout: L,
}

impl<T, L: MatLayout> View for MatBuf<T, L> {
    type V = MatView<T>;

    closed spec fn view(&self) -> MatView<T> {
        MatView {
            values: self.values@,
            nrow: self.nrow as nat,
            ncol: self.ncol as nat,
            layout: self.layout.layout_spec(),
        }
    }
}

impl<T, L: MatLayout> MatBuf<T, L> {
    /// The matrix of `nrow` rows and `ncol` columns in the default layout of
    /// `L`, with the default value of `T` at every position.
    pub fn new(nrow: usize, ncol: usize) -> (m: Self) where T: Default, L: Default
        requires
            nrow * ncol <= usize::MAX,
        ensures
            m@.wf(),
            m@.nrow == nrow,
            m@.ncol == ncol,
            exists|l: L| #[trigger] call_ensures(L::default, (), l) && m@.layout == l.layout_spec(),
            forall|i: int|
                0 <= i < m@.values.len() ==> call_ensures(T::default, (), #[trigger] m@.values[i]),
    {
        let len = nrow * ncol;
        let mut values: Vec<T> = Vec::new();
        while values.len() < len
            invariant
                values@.len() <= len,
                forall|i: int|
                    0 <= i < values@.len() ==> call_ensures(T::default, (), #[trigger] values@[i]),
            decreases len - values@.len(),
        {
            values.push(T::default());
        }
        MatBuf { values, nrow, ncol, layout: L::default() }
    }

    /// The matrix of `nrow` rows and `ncol` columns whose buffer is `values`,
    /// which must hold one element for each position. A buffer of another
    /// length is an error: it is never cut or filled up.
    pub fn from_vec(values: Vec<T>, nrow: usize, ncol: usize, layout: L) -> (made: Result<
        Self,
        Error,
    >)
        ensures
            made is Ok <==> values@.len() == nrow * ncol,
            made matches Ok(m) ==> m@.wf() && m@ == (MatView {
                values: values@,
                nrow: nrow as nat,
                ncol: ncol as nat,
                layout: layout.layout_spec(),
            }),
            made is Err ==> made->Err_0 == Error::ShapeMismatch,
    {
        proof {
            assert(values@.len() == values.len());
        }
        match nrow.checked_mul(ncol) {
            Some(len) => {
                if values.len() == len {
                    Ok(MatBuf { values, nrow, ncol, layout })
                } else {
                    Err(Error::ShapeMismatch)
                }
            },
            None => Err(Error::ShapeMismatch),
        }
    }

    /// The number of rows.
    pub fn nrow(&self) -> (n: usize)
        ensures
            n == self@.nrow,
    {
        self.nrow
    }

    /// The number of columns.
    pub fn ncol(&self) -> (n: usize)
        ensures
            n == self@.ncol,
    {
        self.ncol
    }

    /// The layout of the buffer.
    pub fn layout(&self) -> (l: MatLayouts)
        ensures
            l == self@.layout,
    {
        self.layout.layout()
    }

    /// The buffer, in the order of the layout.
    pub fn as_slice(&self) -> (values: &[T])
        ensures
            values@ == self@.values,
    {
        self.values.as_slice()
    }

    /// The buffer, in the order of the layout, to write to.
    pub fn as_mut_slice(&mut self) -> (values: &mut [T])
        ensures
            values@ == old(self)@.values,
            final(self)@ == old(self)@.with_values(final(values)@),
            old(self)@.wf() && final(values)@.len() == values@.len() ==> final(self)@.wf(),
    {
        self.values.as_mut_slice()
    }

    /// The matrix of the same shape and layout that holds what `f` makes of
    /// each element.
    pub fn map<U>(&self, f: impl Fn(&T) -> U) -> (mapped: MatBuf<U, L>)
        requires
            forall|i: int|
                0 <= i < self@.values.len() ==> call_requires(f, (&#[trigger] self@.values[i],)),
        ensures
            mapped@.nrow == self@.nrow,
            mapped@.ncol == self@.ncol,
            mapped@.layout == self@.layout,
            mapped@.values.len() == self@.values.len(),
            self@.wf() ==> mapped@.wf(),
            forall|i: int|
                0 <= i < self@.values.len() ==> call_ensures(
                    f,
                    (&self@.values[i],),
                    #[trigger] mapped@.values[i],
                ),
            forall|g: spec_fn(T) -> U|
                (forall|x: T, y: U| call_ensures(f, (&x,), y) ==> y == g(x)) ==> mapped@
                    == #[trigger] self@.map(g),
    {
        let mut values: Vec<U> = Vec::new();
        let mut i: usize = 0;
        proof {
            assert forall|j: int| 0 <= j < self.values@.len() implies call_requires(
                f,
                (&#[trigger] self.values@[j],),
            ) by {
            }
        }
        while i < self.values.len()
            invariant
                i <= self.values@.len(),
                values@.len() == i,
                forall|j: int|
                    0 <= j < self.values@.len() ==> call_requires(
                        f,
                        (&#[trigger] self.values@[j],),
                    ),
                forall|j: int|
                    0 <= j < i ==> call_ensures(f, (&self.values@[j],), #[trigger] values@[j]),
            decreases self.values@.len() - i,
        {
            values.push(f(&self.values[i]));
            i += 1;
        }
        proof {
            assert forall|g: spec_fn(T) -> U|
                (forall|x: T, y: U| call_ensures(f, (&x,), y) ==> y == g(x)) implies values@
                == #[trigger] self.values@.map_values(g) by {
                assert forall|j: int| 0 <= j < values@.len() implies values@[j] == g(
                    self.values@[j],
                ) by {
                }
            }
        }
        MatBuf { values, nrow: self.nrow, ncol: self.ncol, layout: self.layout }
    }

    /// The matrix drawn as a table, whatever its layout: one line for each
    /// row, one column for each column, each element as `show` renders it.
    pub fn to_grid(&self, show: impl Fn(&T) -> String) -> (text: String)
        requires
            self@.wf(),
            forall|r: int, c: int|
                self@.has(r, c) ==> call_requires(show, (&#[trigger] self@.at(r, c),)),
        ensures
            exists|cells: Seq<Seq<Seq<char>>>|
                shown(show, self@, cells) && text@ == #[trigger] grid_text(cells, self@.ncol),
    {
        self.as_mat().to_grid(show)
    }

    /// The element at (`row`, `col`).
    pub fn at(&self, row: usize, col: usize) -> (element: &T)
        requires
            self@.wf(),
            self@.has(row as int, col as int),
        ensures
            *element == self@.at(row as int, col as int),
    {
        match self.get(row, col) {
            Ok(element) => element,
            Err(_) => unreached(),
        }
    }

    /// The element at (`row`, `col`), if that is a position of the matrix.
    pub fn get(&self, row: usize, col: usize) -> (found: Result<&T, Error>)
        requires
            self@.wf(),
        ensures
            found is Ok <==> self@.has(row as int, col as int),
            found matches Ok(element) ==> *element == self@.at(row as int, col as int),
            found is Err ==> found->Err_0 == Error::IndexOutOfBounds,
    {
        match check_row(row, self.nrow) {
            Ok(()) => {},
            Err(e) => {
                return Err(e);
            },
        }
        match check_col(col, self.ncol) {
            Ok(()) => {},
            Err(e) => {
                return Err(e);
            },
        }
        proof {
            assert(self.values@.len() == self.values.len());
        }
        let index = self.layout.to_index(row, col, self.nrow, self.ncol);
        Ok(&self.values[index])
    }

    /// The element at (`row`, `col`), to write to.
    pub fn at_mut(&mut self, row: usize, col: usize) -> (element: &mut T)
        requires
            old(self)@.wf(),
            old(self)@.has(row as int, col as int),
        ensures
            *element == old(self)@.at(row as int, col as int),
            final(self)@ == old(self)@.set(row as int, col as int, *final(element)),
            final(self)@.wf(),
    {
        match self.get_mut(row, col) {
            Ok(element) => element,
            Err(_) => unreached(),
        }
    }

    /// The element at (`row`, `col`), to write to, if that is a position of
    /// the matrix. If it is none, nothing can be written: the matrix stays as
    /// it is.
    pub fn get_mut(&mut self, row: usize, col: usize) -> (found: Result<&mut T, Error>)
        requires
            old(self)@.wf(),
        ensures
            found is Ok <==> old(self)@.has(row as int, col as int),
            found is Ok ==> {
                &&& *found->Ok_0 == old(self)@.at(row as int, col as int)
                &&& final(self)@ == old(self)@.set(row as int, col as int, *final(found->Ok_0))
                &&& final(self)@.wf()
            },
            found is Err ==> found->Err_0 == Error::IndexOutOfBounds && final(self)@ == old(self)@,
    {
        match check_row(row, self.nrow) {
            Ok(()) => {},
            Err(e) => {
                return Err(e);
            },
        }
        match check_col(col, self.ncol) {
            Ok(()) => {},
            Err(e) => {
                return Err(e);
            },
        }
        proof {
            assert(self.values@.len() == self.values.len());
        }
        let index = self.layout.to_index(row, col, self.nrow, self.ncol);
        Ok(&mut self.values[index])
    }
}

/// [`Vec::extend`] with an array: the elements of `row` follow those that
/// `values` held, in the order of the array.
#[verifier::external_body]
fn extend_with_row<T, const N: usize>(values: &mut Vec<T>, row: [T; N])
    ensures
        final(values)@ == old(values)@ + row@,
{
    values.extend(row);
}

impl<T> MatBuf<T, RowMajor> {
    /// The row-major matrix of `N` columns whose rows are `rows`.
    pub fn from_rows<const N: usize>(rows: Vec<[T; N]>) -> (m: Self)
        ensures
            m@.wf(),
            m@ == MatView::of_rows(array_rows(rows@), N as nat),
    {
        let ghost all = array_rows(rows@);
        proof {
            assert(rows@.len() == rows.len());
        }
        let mut nrow: usize = 0;
        let mut values: Vec<T> = Vec::new();
        for row in it: rows.into_iter()
            invariant
                it.seq() == rows@,
                rows@.len() <= usize::MAX,
                all == array_rows(rows@),
                nrow == it.index(),
                values@ == all.take(nrow as int).flatten(),
        {
            proof {
                assert(all.take(nrow + 1) =~= all.take(nrow as int).push(row@));
                all.take(nrow as int).lemma_flatten_push(row@);
            }
            extend_with_row(&mut values, row);
            nrow += 1;
        }
        proof {
            assert(all.take(nrow as int) =~= all);
            MatView::lemma_of_rows(all, N as nat);
        }
        MatBuf { values, nrow, ncol: N, layout: RowMajor }
    }

    /// The row-major matrix whose rows are clones of `rows`, which must be of
    /// one length; no matrix if there is no row.
    pub fn from_rows_non_empty(rows: &[Vec<T>]) -> (made: Result<Option<Self>, Error>) where
        T: Clone,

        ensures
            match made {
                Ok(None) => rows@.len() == 0,
                Ok(Some(m)) => {
                    &&& rows@.len() > 0
                    &&& uniform(vec_rows(rows@), rows@[0]@.len())
                    &&& m@.wf()
                    &&& m@.nrow == rows@.len()
                    &&& m@.ncol == rows@[0]@.len()
                    &&& m@.layout == MatLayouts::RowMajor
                    &&& cloned_seq(vec_rows(rows@).flatten(), m@.values)
                },
                Err(e) => {
                    &&& e == Error::ColumnCountMismatch
                    &&& rows@.len() > 0
                    &&& !uniform(vec_rows(rows@), rows@[0]@.len())
                },
            },
    {
        if rows.len() == 0 {
            return Ok(None);
        }
        let ghost all = vec_rows(rows@);
        let ncol = rows[0].len();
        let mut nrow: usize = 0;
        let mut values: Vec<T> = Vec::new();
        while nrow < rows.len()
            invariant
                nrow <= rows@.len(),
                all == vec_rows(rows@),
                ncol == rows@[0]@.len(),
                uniform(all.take(nrow as int), ncol as nat),
                cloned_seq(all.take(nrow as int).flatten(), values@),
            decreases rows@.len() - nrow,
        {
            let row = &rows[nrow];
            if row.len() != ncol {
                proof {
                    assert(all[nrow as int].len() != ncol);
                }
                return Err(Error::ColumnCountMismatch);
            }
            proof {
                assert(all.take(nrow + 1) =~= all.take(nrow as int).push(row@));
                all.take(nrow as int).lemma_flatten_push(row@);
            }
            values.extend_from_slice(row.as_slice());
            nrow += 1;
        }
        proof {
            assert(all.take(nrow as int) =~= all);
            MatView::lemma_of_rows(all, ncol as nat);
        }
        Ok(Some(MatBuf { values, nrow, ncol, layout: RowMajor }))
    }
}

impl<T> MatBuf<T, ColMajor> {
    /// The elements of column `col`, from the first row to the last.
    pub fn col(&self, col: usize) -> (values: &[T])
        requires
            self@.wf(),
            col < self@.ncol,
        ensures
            self@.layout == MatLayouts::ColMajor,
            values@ == self@.col(col as int),
            values@.len() == self@.nrow,
    {
        self.as_mat().col(col)
    }

    /// The elements of column `col`, from the first row to the last, to write to.
    pub fn col_mut(&mut self, col: usize) -> (values: &mut [T])
        requires
            old(self)@.wf(),
            col < old(self)@.ncol,
        ensures
            old(self)@.layout == MatLayouts::ColMajor,
            values@ == old(self)@.col(col as int),
            values@.len() == old(self)@.nrow,
            final(self)@ == old(self)@.set_col(col as int, final(values)@),
            final(values)@.len() == values@.len() ==> final(self)@.wf(),
    {
        match check_col(col, self.ncol) {
            Ok(()) => {},
            Err(_) => unreached(),
        }
        proof {
            assert(self.values@.len() == self.values.len());
            assert(self.ncol * self.nrow == self.nrow * self.ncol) by (nonlinear_arith);
            lemma_stripe_in_bounds(col as int, self.ncol as int, self.nrow as int);
        }
        let start = col * self.nrow;
        let width = self.nrow;
        let ghost whole = self.values@;
        let (front, tail) = self.values.as_mut_slice().split_at_mut(start);
        let (stripe, back) = tail.split_at_mut(width);
        proof {
            assert(back@ =~= whole.subrange(start + width, whole.len() as int));
            assert(front@ + (final(stripe)@ + back@) =~= front@ + final(stripe)@ + back@);
        }
        stripe
    }

    /// The columns from `start` to `end`, as a matrix over the same buffer.
    pub fn cols(&self, start: Endpoint, end: Endpoint) -> (part: Mat<'_, T, ColMajor>)
        requires
            self@.wf(),
            range_fits(start_of(start), end_of(end, self@.ncol as int), self@.ncol as int),
        ensures
            self@.layout == MatLayouts::ColMajor,
            part@.wf(),
            part@ == self@.cols(start_of(start), end_of(end, self@.ncol as int)),
    {
        self.as_mat().cols(start, end)
    }
}

impl<T> MatBuf<T, RowMajor> {
    /// The elements of row `row`, from the first column to the last.
    pub fn row(&self, row: usize) -> (values: &[T])
        requires
            self@.wf(),
            row < self@.nrow,
        ensures
            self@.layout == MatLayouts::RowMajor,
            values@ == self@.row(row as int),
            values@.len() == self@.ncol,
    {
        self.as_mat().row(row)
    }

    /// The elements of row `row`, from the first column to the last, to write to.
    pub fn row_mut(&mut self, row: usize) -> (values: &mut [T])
        requires
            old(self)@.wf(),
            row < old(self)@.nrow,
        ensures
            old(self)@.layout == MatLayouts::RowMajor,
            values@ == old(self)@.row(row as int),
            values@.len() == old(self)@.ncol,
            final(self)@ == old(self)@.set_row(row as int, final(values)@),
            final(values)@.len() == values@.len() ==> final(self)@.wf(),
    {
        match check_row(row, self.nrow) {
            Ok(()) => {},
            Err(_) => unreached(),
        }
        proof {
            assert(self.values@.len() == self.values.len());
            lemma_stripe_in_bounds(row as int, self.nrow as int, self.ncol as int);
        }
        let start = row * self.ncol;
        let width = self.ncol;
        let ghost whole = self.values@;
        let (front, tail) = self.values.as_mut_slice().split_at_mut(start);
        let (stripe, back) = tail.split_at_mut(width);
        proof {
            assert(back@ =~= whole.subrange(start + width, whole.len() as int));
            assert(front@ + (final(stripe)@ + back@) =~= front@ + final(stripe)@ + back@);
        }
        stripe
    }

    /// The rows from `start` to `end`, as a matrix over the same buffer.
    pub fn rows(&self, start: Endpoint, end: Endpoint) -> (part: Mat<'_, T, RowMajor>)
        requires
            self@.wf(),
            range_fits(start_of(start), end_of(end, self@.nrow as int), self@.nrow as int),
        ensures
            self@.layout == MatLayouts::RowMajor,
            part@.wf(),
            part@ == self@.rows(start_of(start), end_of(end, self@.nrow as int)),
    {
        self.as_mat().rows(start, end)
    }
}

impl<T, L: MatLayout> vstd::std_specs::core::IndexSpecImpl<[usize; 2]> for MatBuf<T, L> {
    open spec fn index_req(&self, index: &[usize; 2]) -> bool {
        self@.wf() && self@.has(index[0] as int, index[1] as int)
    }
}

impl<T, L: MatLayout> Index<[usize; 2]> for MatBuf<T, L> {
    type Output = T;

    /// The element at the row and the column that `index` holds, in this order.
    fn index(&self, index: [usize; 2]) -> (element: &T)
        ensures
            *element == self@.at(index[0] as int, index[1] as int),
    {
        self.at(index[0], index[1])
    }
}

impl<T, L: MatLayout> AsMat<T> for MatBuf<T, L> {
    type Layout = L;

    open spec fn mat(&self) -> MatView<T> {
        self@
    }

    fn as_mat(&self) -> Mat<'_, T, L> {
        Mat::over(self.values.as_slice(), self.nrow, self.ncol, self.layout)
    }
}

impl<T: Clone, L: MatLayout> Clone for MatBuf<T, L> {
    /// A matrix of the same shape and layout that holds a clone of each element.
    fn clone(&self) -> (copy: Self)
        ensures
            copy@.nrow == self@.nrow,
            copy@.ncol == self@.ncol,
            copy@.layout == self@.layout,
            cloned_seq(self@.values, copy@.values),
            self@.wf() ==> copy@.wf(),
    {
        MatBuf {
            values: self.values.clone(),
            nrow: self.nrow,
            ncol: self.ncol,
            layout: self.layout,
        }
    }
}

} // verus!
