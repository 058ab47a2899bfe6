//! Matrices drawn as tables of text.

use crate::mat::model::MatView;
use vstd::prelude::*;

verus! {

/// The table that `text_grid::to_grid_with_schema` draws of `cells`, one line
/// for each row of `cells` under a header line that numbers the `ncol` columns
/// from 0.
pub uninterp spec fn grid_text(cells: Seq<Seq<Seq<char>>>, ncol: nat) -> Seq<char>;

/// `text` is what `show` may return for `value`.
pub open spec fn shows<T, F: Fn(&T) -> String>(show: F, value: T, text: Seq<char>) -> bool {
    exists|s: String| #[trigger] call_ensures(show, (&value,), s) && s@ == text
}

/// `cells` holds, row by row and column by column, what `show` may return for
/// the elements of `m`.
pub open spec fn shown<T, F: Fn(&T) -> String>(
    show: F,
    m: MatView<T>,
    cells: Seq<Seq<Seq<char>>>,
) -> bool {
    &&& cells.len() == m.nrow
    &&& forall|r: int| 0 <= r < m.nrow ==> (#[trigger] cells[r]).len() == m.ncol
    &&& forall|r: int, c: int| m.has(r, c) ==> shows(show, m.at(r, c), #[trigger] cells[r][c])
}

/// `text_grid::to_grid_with_schema` on the rows of `cells`, with a schema of
/// `ncol` columns: column `c` is headed by `c` and shows cell `c` of each row
/// as it stands. The result is the table as text.
#[verifier::external_body]
pub(crate) fn render_grid(cells: &Vec<Vec<String>>, ncol: usize) -> (text: String)
    requires
        forall|r: int| 0 <= r < cells@.len() ==> (#[trigger] cells@[r])@.len() == ncol,
    ensures
        text@ == grid_text(cells.deep_view(), ncol as nat),
{
    let schema = text_grid::cells_schema::<Vec<String>>(|f| {
        for col in 0..ncol {
            f.column(col, |row| text_grid::cell(&row[col]));
        }
    });
    text_grid::to_grid_with_schema(cells, schema)
}

} // verus!
