//! What a dataset is made from: the shapes of matrices as the engine takes them.

use crate::error::Error;
use crate::mat::layout::{MatLayout, MatLayouts};
use crate::mat::model::MatView;
use crate::mat::Mat;
use crate::utils::to_c_int;
use vstd::prelude::*;

verus! {

/// The flag by which the engine knows a layout: 1 for row-major, 0 for
/// column-major.
pub open spec fn layout_flag(layout: MatLayouts) -> int {
    if layout == MatLayouts::RowMajor {
        1
    } else {
        0
    }
}

/// The shape of one matrix, in the engine's integers.
#[derive(Copy, Clone, Debug, PartialEq, Eq, Structural)]
pub struct MatShape {
    /// The number of rows.
    pub nrow: i32,
    /// The number of columns.
    pub ncol: i32,
    /// 1 if the buffer is row-major, 0 if it is column-major.
    pub is_row_major: i32,
}

/// The shape of `mat` in the engine's integers, if they can hold it.
pub fn mat_shape<T, L: MatLayout>(mat: &Mat<'_, T, L>) -> (made: Result<MatShape, Error>)
    ensures
        made is Ok <==> mat@.nrow <= i32::MAX && mat@.ncol <= i32::MAX,
        made matches Ok(shape) ==> {
            &&& shape.nrow == mat@.nrow
            &&& shape.ncol == mat@.ncol
            &&& shape.is_row_major == layout_flag(mat@.layout)
        },
        made is Err ==> made->Err_0 == Error::IntOutOfRange,
{
    let nrow = match to_c_int(mat.nrow()) {
        Ok(nrow) => nrow,
        Err(e) => {
            return Err(e);
        },
    };
    let ncol = match to_c_int(mat.ncol()) {
        Ok(ncol) => ncol,
        Err(e) => {
            return Err(e);
        },
    };
    Ok(MatShape { nrow, ncol, is_row_major: mat.is_row_major() })
}

/// The shapes of matrices that are stacked, one on top of the other, in the
/// engine's integers.
pub struct MatsShape {
    /// The number of rows of each matrix, from the top one down.
    pub nrows: Vec<i32>,
    /// The number of columns, which is that of each matrix.
    pub ncol: i32,
    /// 1 if the buffers are row-major, 0 if they are column-major.
    pub is_row_major: i32,
}

/// What keeps `mat` from being stacked with `first`, if anything does: another
/// number of columns, another layout, or more rows than the engine can count,
/// whichever comes first in this order.
pub open spec fn mat_fault<T>(first: MatView<T>, mat: MatView<T>) -> Option<Error> {
    if mat.ncol != first.ncol {
        Some(Error::MatsColumnCount)
    } else if mat.layout != first.layout {
        Some(Error::MatsLayout)
    } else if mat.nrow > i32::MAX {
        Some(Error::IntOutOfRange)
    } else {
        None
    }
}

/// `index` is the place of the first matrix of `mats` that cannot be stacked
/// with the first of them.
pub open spec fn first_fault<T>(mats: Seq<MatView<T>>, index: int) -> bool {
    &&& 0 <= index < mats.len()
    &&& mat_fault(mats[0], mats[index]) is Some
    &&& forall|i: int| 0 <= i < index ==> mat_fault(mats[0], #[trigger] mats[i]) is None
}

/// What keeps `mats` from being handed to the engine as one stack, if anything
/// does: that there is none; else what is wrong with the first matrix that
/// does not go with the first; else that the engine cannot count the matrices
/// or their columns.
pub open spec fn mats_error<T>(mats: Seq<MatView<T>>) -> Option<Error> {
    if mats.len() == 0 {
        Some(Error::NoMats)
    } else if exists|index: int| first_fault(mats, index) {
        mat_fault(mats[0], mats[choose|index: int| first_fault(mats, index)])
    } else if mats.len() > i32::MAX || mats[0].ncol > i32::MAX {
        Some(Error::IntOutOfRange)
    } else {
        None
    }
}

/// The matrices that `mats` holds.
pub open spec fn mat_views<T, L: MatLayout>(mats: Seq<Mat<'_, T, L>>) -> Seq<MatView<T>> {
    mats.map_values(|mat: Mat<'_, T, L>| mat@)
}

/// The shapes of `mats` as one stack in the engine's integers, if they make
/// one: there is a matrix, all have the columns and the layout of the first,
/// and the engine's integers hold every count.
pub fn mats_shape<T, L: MatLayout>(mats: &[Mat<'_, T, L>]) -> (made: Result<MatsShape, Error>)
    ensures
        made is Ok <==> mats_error(mat_views(mats@)) is None,
        made matches Ok(shape) ==> {
            &&& shape.nrows@.len() == mats@.len()
            &&& forall|i: int| 0 <= i < mats@.len() ==> #[trigger] shape.nrows@[i] == mats@[i]@.nrow
            &&& shape.ncol == mats@[0]@.ncol
            &&& shape.is_row_major == layout_flag(mats@[0]@.layout)
        },
        made matches Err(e) ==> mats_error(mat_views(mats@)) == Some(e),
{
    let ghost views = mat_views(mats@);
    if mats.len() == 0 {
        return Err(Error::NoMats);
    }
    let ncol = mats[0].ncol();
    let is_row_major = mats[0].is_row_major();
    let mut nrows: Vec<i32> = Vec::new();
    let mut index: usize = 0;
    while index < mats.len()
        invariant
            views == mat_views(mats@),
            mats@.len() > 0,
            index <= mats@.len(),
            ncol == mats@[0]@.ncol,
            is_row_major == layout_flag(mats@[0]@.layout),
            nrows@.len() == index,
            forall|i: int| 0 <= i < index ==> mat_fault(views[0], #[trigger] views[i]) is None,
            forall|i: int| 0 <= i < index ==> #[trigger] nrows@[i] == mats@[i]@.nrow,
        decreases mats@.len() - index,
    {
        let mat = &mats[index];
        if mat.ncol() != ncol {
            proof {
                assert(first_fault(views, index as int));
            }
            return Err(Error::MatsColumnCount);
        }
        if mat.is_row_major() != is_row_major {
            proof {
                assert(first_fault(views, index as int));
            }
            return Err(Error::MatsLayout);
        }
        match to_c_int(mat.nrow()) {
            Ok(nrow) => {
                nrows.push(nrow);
            },
            Err(e) => {
                proof {
                    assert(first_fault(views, index as int));
                }
                return Err(e);
            },
        }
        index += 1;
    }
    match to_c_int(mats.len()) {
        Ok(_) => {},
        Err(e) => {
            return Err(e);
        },
    }
    match to_c_int(ncol) {
        Ok(ncol) => Ok(MatsShape { nrows, ncol, is_row_major }),
        Err(e) => Err(e),
    }
}

} // verus!
