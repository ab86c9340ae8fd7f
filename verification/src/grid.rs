//! The elevation grid: a two-dimensional `ndarray` array of 16-bit heights,
//! seen by the verifier as a sequence of rows.

use ndarray::{Array2, ShapeBuilder};
use vstd::prelude::*;

verus! {

/// A two-dimensional array of heights, stored by `ndarray` in column-major
/// order. The verifier does not look inside; what it knows of a grid is what
/// [`grid_rows`] says of it.
#[verifier::external_body]
pub struct ElevationGrid {
    cells: Array2<i16>,
}

/// The cells of a grid, row by row: `grid_rows(g)[r][c]` is the cell that
/// indexing the array with `[r, c]` reads.
pub uninterp spec fn grid_rows(grid: ElevationGrid) -> Seq<Seq<i16>>;

/// Whether `rows` is a rectangle of `n_rows` rows and `n_cols` columns whose
/// cell `[r][c]` is `cells[c * n_rows + r]`: the column-major reading of
/// `cells`.
pub open spec fn is_column_major(
    rows: Seq<Seq<i16>>,
    n_rows: int,
    n_cols: int,
    cells: Seq<i16>,
) -> bool {
    &&& rows.len() == n_rows
    &&& forall|r: int| 0 <= r < n_rows ==> (#[trigger] rows[r]).len() == n_cols
    &&& forall|r: int, c: int|
        0 <= r < n_rows && 0 <= c < n_cols ==> #[trigger] rows[r][c] == cells[c * n_rows + r]
}

/// Builds the array with `Array2::from_shape_vec` on the shape
/// `(n_rows, n_cols)` in Fortran (column-major) order. For two non-zero axis
/// lengths `ndarray` accepts the vector exactly when its length is their
/// product and that product does not exceed `isize::MAX`; the element at
/// `[r, c]` is then the one at offset `r + c * n_rows` of the vector.
#[verifier::external_body]
pub(crate) fn grid_from_columns(n_rows: usize, n_cols: usize, cells: Vec<i16>) -> (r: Option<
    ElevationGrid,
>)
    requires
        0 < n_rows,
        0 < n_cols,
    ensures
        r is Some <==> (n_rows * n_cols == cells@.len() && n_rows * n_cols <= isize::MAX),
        r matches Some(g) ==> is_column_major(grid_rows(g), n_rows as int, n_cols as int, cells@),
{
    match Array2::from_shape_vec((n_rows, n_cols).f(), cells) {
        Ok(cells) => Some(ElevationGrid { cells }),
        Err(_) => None,
    }
}

/// Reads one cell with `ndarray`'s index operator, which panics outside the
/// array's shape; inside it, the cell read is the one the row model names.
#[verifier::external_body]
pub(crate) fn grid_cell(grid: &ElevationGrid, row: usize, col: usize) -> (v: i16)
    requires
        row < grid_rows(*grid).len(),
        col < grid_rows(*grid)[row as int].len(),
    ensures
        v == grid_rows(*grid)[row as int][col as int],
{
    grid.cells[[row, col]]
}

} // verus!
