//! The errors that the library reports.

use vstd::prelude::*;

verus! {

/// What went wrong in a call that can fail.
#[derive(Copy, Clone, Debug, PartialEq, Eq, Structural)]
pub enum Error {
    /// The length of a buffer is not the product of the shape it was given with.
    ShapeMismatch,
    /// The rows that a matrix was to be built from differ in length.
    ColumnCountMismatch,
    /// A row, a column or a range lies outside the matrix.
    IndexOutOfBounds,
    /// The bytes of a text are not valid UTF-8.
    InvalidUtf8,
    /// A number does not fit the integer type that the engine takes.
    IntOutOfRange,
    /// No matrix was given where at least one is needed.
    NoMats,
    /// The matrices that were given together differ in their number of columns.
    MatsColumnCount,
    /// The matrices that were given together differ in layout.
    MatsLayout,
    /// The number of predictions is no multiple of the number of rows and classes.
    InvalidNumData,
}

impl Error {
    /// The text that describes the error.
    pub open spec fn message_spec(self) -> Seq<char> {
        match self {
            Error::ShapeMismatch => "mismatch length"@,
            Error::ColumnCountMismatch => "mismatch column length"@,
            Error::IndexOutOfBounds => "index out of bounds"@,
            Error::InvalidUtf8 => "invalid utf-8 sequence"@,
            Error::IntOutOfRange => "out of range integral type conversion attempted"@,
            Error::NoMats => "mats must not be empty"@,
            Error::MatsColumnCount => "mats must have the same number of columns"@,
            Error::MatsLayout => "mats must have the same layout"@,
            Error::InvalidNumData => "invalid num_data"@,
        }
    }

    /// The text that describes the error.
    pub fn message(&self) -> (text: &'static str)
        ensures
            text@ == self.message_spec(),
    {
        match self {
            Error::ShapeMismatch => "mismatch length",
            Error::ColumnCountMismatch => "mismatch column length",
            Error::IndexOutOfBounds => "index out of bounds",
            Error::InvalidUtf8 => "invalid utf-8 sequence",
            Error::IntOutOfRange => "out of range integral type conversion attempted",
            Error::NoMats => "mats must not be empty",
            Error::MatsColumnCount => "mats must have the same number of columns",
            Error::MatsLayout => "mats must have the same layout",
            Error::InvalidNumData => "invalid num_data",
        }
    }
}

} // verus!
