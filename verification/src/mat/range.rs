//! Ranges of rows or columns, and the checks that guard an access.

use crate::error::Error;
use std::ops::Range;
use vstd::prelude::*;

verus! {

/// One end of a range of indices.
#[derive(Copy, Clone, Debug, PartialEq, Eq, Structural)]
pub enum Endpoint {
    /// The range reaches up to this index, which belongs to it.
    Included(usize),
    /// The range reaches up to this index, which does not belong to it.
    Excluded(usize),
    /// The range reaches as far as the indices go.
    Unbounded,
}

/// The first index of a range that starts at `start`.
pub open spec fn start_of(start: Endpoint) -> int {
    match start {
        Endpoint::Included(index) => index as int,
        Endpoint::Excluded(index) => index + 1,
        Endpoint::Unbounded => 0,
    }
}

/// The index after the last one of a range over `len` indices that ends at `end`.
pub open spec fn end_of(end: Endpoint, len: int) -> int {
    match end {
        Endpoint::Included(index) => index + 1,
        Endpoint::Excluded(index) => index as int,
        Endpoint::Unbounded => len,
    }
}

/// The half-open range from `start` up to `end` lies within `len` indices.
pub open spec fn range_fits(start: int, end: int, len: int) -> bool {
    0 <= start <= end <= len
}

/// Tells whether `index` is one of `len` indices.
pub fn check_index(index: usize, len: usize) -> (checked: Result<(), Error>)
    ensures
        checked is Ok <==> index < len,
        checked is Err ==> checked == Err::<(), Error>(Error::IndexOutOfBounds),
{
    if index < len {
        Ok(())
    } else {
        Err(Error::IndexOutOfBounds)
    }
}

/// Tells whether `row` is one of `nrow` rows.
pub fn check_row(row: usize, nrow: usize) -> (checked: Result<(), Error>)
    ensures
        checked is Ok <==> row < nrow,
        checked is Err ==> checked == Err::<(), Error>(Error::IndexOutOfBounds),
{
    check_index(row, nrow)
}

/// Tells whether `col` is one of `ncol` columns.
pub fn check_col(col: usize, ncol: usize) -> (checked: Result<(), Error>)
    ensures
        checked is Ok <==> col < ncol,
        checked is Err ==> checked == Err::<(), Error>(Error::IndexOutOfBounds),
{
    check_index(col, ncol)
}

/// Tells whether `range` lies within `len` indices.
pub fn check_range(range: &Range<usize>, len: usize) -> (checked: Result<(), Error>)
    ensures
        checked is Ok <==> range_fits(range.start as int, range.end as int, len as int),
        checked is Err ==> checked == Err::<(), Error>(Error::IndexOutOfBounds),
{
    if range.start <= range.end && range.end <= len {
        Ok(())
    } else {
        Err(Error::IndexOutOfBounds)
    }
}

/// The half-open range over `len` indices that runs from `start` to `end`:
/// it starts at an included start or after an excluded one, and ends after an
/// included end or at an excluded one; an end that is left open is `len`.
/// Whether the range lies within the `len` indices is not looked at here: that
/// is what `check_range` tells. The only ranges that cannot be made are those
/// with a bound that `usize` cannot hold.
pub fn to_range(start: Endpoint, end: Endpoint, len: usize) -> (range: Result<Range<usize>, Error>)
    ensures
        range is Ok <==> start_of(start) <= usize::MAX && end_of(end, len as int) <= usize::MAX,
        range matches Ok(r) ==> r.start == start_of(start) && r.end == end_of(end, len as int),
        range is Err ==> range == Err::<Range<usize>, Error>(Error::IndexOutOfBounds),
{
    let first: usize = match start {
        Endpoint::Included(index) => index,
        Endpoint::Excluded(index) => match index.checked_add(1) {
            Some(first) => first,
            None => {
                return Err(Error::IndexOutOfBounds);
            },
        },
        Endpoint::Unbounded => 0,
    };
    let after: usize = match end {
        Endpoint::Included(index) => match index.checked_add(1) {
            Some(after) => after,
            None => {
                return Err(Error::IndexOutOfBounds);
            },
        },
        Endpoint::Excluded(index) => index,
        Endpoint::Unbounded => len,
    };
    Ok(first..after)
}

} // verus!
