use vstd::prelude::*;
use crate::Owner;
use array2d::Array2D;

verus! {

// The board's cell storage is an `array2d::Array2D`, a rectangular grid
// backed by a row-major `Vec`. The declarations below give Verus a view of
// such a grid as a sequence of rows.

#[verifier::external_type_specification]
#[verifier::external_body]
#[verifier::reject_recursive_types(T)]
pub struct ExArray2D<T>(Array2D<T>);

/// The rows of a grid, top row first: `a2d_cells(a)[r][c]` is the element
/// of `a` at row `r`, column `c`. Every row has the grid's column count as
/// its length.
pub uninterp spec fn a2d_cells(a: Array2D<Owner>) -> Seq<Seq<Owner>>;

/// Relies on `Array2D::filled_with`: builds a `rows` x `cols` grid with
/// every element a clone of `value`. The product is computed in `usize`,
/// so the caller must keep it in range.
#[verifier::external_body]
pub(crate) fn a2d_filled(value: Owner, rows: usize, cols: usize) -> (a: Array2D<Owner>)
    requires
        rows * cols <= usize::MAX,
    ensures
        a2d_cells(a).len() == rows,
        forall|r: int| 0 <= r < rows ==> (#[trigger] a2d_cells(a)[r]).len() == cols,
        forall|r: int, c: int|
            0 <= r < rows && 0 <= c < cols ==> #[trigger] a2d_cells(a)[r][c] == value,
{
    Array2D::filled_with(value, rows, cols)
}

/// Relies on `Array2D::get`: returns the element at `(row, col)` when both
/// indices are in bounds, and `None` otherwise.
#[verifier::external_body]
pub(crate) fn a2d_get(a: &Array2D<Owner>, row: usize, col: usize) -> (r: Option<Owner>)
    ensures
        r == ({
            let g = a2d_cells(*a);
            if row < g.len() && col < g[row as int].len() {
                Some(g[row as int][col as int])
            } else {
                None::<Owner>
            }
        }),
{
    a.get(row, col).copied()
}

/// Relies on `Array2D::set`: overwrites the element at `(row, col)` and
/// returns `Ok` when both indices are in bounds; otherwise leaves the grid
/// unchanged and returns an error.
#[verifier::external_body]
pub(crate) fn a2d_set(a: &mut Array2D<Owner>, row: usize, col: usize, value: Owner) -> (ok: bool)
    ensures
        ok == ({
            let g0 = a2d_cells(*old(a));
            row < g0.len() && col < g0[row as int].len()
        }),
        a2d_cells(*final(a)) == ({
            let g0 = a2d_cells(*old(a));
            if row < g0.len() && col < g0[row as int].len() {
                g0.update(row as int, g0[row as int].update(col as int, value))
            } else {
                g0
            }
        }),
{
    match a.set(row, col, value) {
        Ok(()) => true,
        Err(_) => false,
    }
}

} // verus!
