use vstd::prelude::*;

use crate::coerce::{CellValue, TypedCell};

verus! {

/// A rectangular, row-major grid of cells.
#[derive(Debug)]
#[verifier::external_body]
pub struct CellMatrix {
    grid: ndarray::Array2<TypedCell>,
}

/// The cells of a grid, row after row.
pub uninterp spec fn grid_cells(m: CellMatrix) -> Seq<CellValue>;

/// The number of rows of a grid.
pub uninterp spec fn grid_rows(m: CellMatrix) -> nat;

/// The number of columns of a grid.
pub uninterp spec fn grid_cols(m: CellMatrix) -> nat;

pub open spec fn cell_views(cells: Seq<TypedCell>) -> Seq<CellValue> {
    cells.map_values(|c: TypedCell| c@)
}

/// An extent counted as ndarray counts it when it bounds a shape: an empty
/// axis counts as one.
pub open spec fn nonzero_extent(d: usize) -> int {
    if d == 0 {
        1
    } else {
        d as int
    }
}

/// A shape that ndarray accepts: the product of its non-empty extents is at
/// most `isize::MAX`.
pub open spec fn shape_fits(rows: usize, cols: usize) -> bool {
    nonzero_extent(rows) * nonzero_extent(cols) <= isize::MAX
}

/// Relies on ndarray::Array2::from_shape_vec with a `(rows, cols)` shape: it
/// keeps the cells in row-major order, and fails exactly where their number is
/// not `rows * cols` or the product of the non-empty extents exceeds
/// `isize::MAX` (`size_of_shape_checked`).
#[verifier::external_body]
fn shape_cells(rows: usize, cols: usize, cells: Vec<TypedCell>) -> (r: Option<CellMatrix>)
    ensures
        r is Some <==> (cells@.len() == rows * cols && shape_fits(rows, cols)),
        r matches Some(m) ==> grid_rows(m) == rows && grid_cols(m) == cols && grid_cells(m)
            == cell_views(cells@),
{
    ndarray::Array2::from_shape_vec((rows, cols), cells).ok().map(|grid| CellMatrix { grid })
}

impl CellMatrix {
    /// Relies on ndarray::ArrayBase::nrows.
    #[verifier::external_body]
    pub fn nrows(&self) -> (r: usize)
        ensures
            r == grid_rows(*self),
    {
        self.grid.nrows()
    }

    /// Relies on ndarray::ArrayBase::ncols.
    #[verifier::external_body]
    pub fn ncols(&self) -> (r: usize)
        ensures
            r == grid_cols(*self),
    {
        self.grid.ncols()
    }

    /// Relies on ndarray::ArrayBase::into_raw_vec_and_offset: an array built
    /// in standard layout hands back its cells in row-major order.
    #[verifier::external_body]
    pub fn into_cells(self) -> (r: Vec<TypedCell>)
        ensures
            cell_views(r@) == grid_cells(self),
            r@.len() == grid_rows(self) * grid_cols(self),
    {
        self.grid.into_raw_vec_and_offset().0
    }
}

fn fits(rows: usize, cols: usize) -> (r: bool)
    ensures
        r == shape_fits(rows, cols),
{
    let a: u128 = if rows == 0 {
        1
    } else {
        rows as u128
    };
    let b: u128 = if cols == 0 {
        1
    } else {
        cols as u128
    };
    assert(a * b <= usize::MAX as u128 * usize::MAX as u128) by (nonlinear_arith)
        requires
            a <= usize::MAX,
            b <= usize::MAX,
    ;
    assert(usize::MAX as u128 * usize::MAX as u128 <= u128::MAX) by (nonlinear_arith)
        requires
            usize::MAX <= 0xffff_ffff_ffff_ffff,
    ;
    assert(a as int == nonzero_extent(rows));
    assert(b as int == nonzero_extent(cols));
    a * b <= isize::MAX as u128
}

/// Lays out rows of cells as a grid with `cols` columns; `None` where a row
/// does not have `cols` cells, or where ndarray cannot hold the shape.
#[verifier::loop_isolation(false)]
pub fn grid_from_rows(cols: usize, rows: Vec<Vec<TypedCell>>) -> (r: Option<CellMatrix>)
    ensures
        r is Some <==> shape_fits(rows@.len() as usize, cols) && forall|i: int|
            0 <= i < rows@.len() ==> #[trigger] rows@[i]@.len() == cols,
        r matches Some(m) ==> grid_rows(m) == rows@.len() && grid_cols(m) == cols && forall|i: int, j: int|
            0 <= i < rows@.len() && 0 <= j < cols ==> grid_cells(m)[i * cols + j] == (
            #[trigger] rows@[i]@[j])@,
{
    let n = rows.len();
    if !fits(n, cols) {
        return None;
    }
    let ghost orig = rows@;
    let mut pending = rows;
    let mut cells: Vec<TypedCell> = Vec::new();
    let mut i: usize = 0;
    while i < n
        invariant
            n == orig.len(),
            pending@.len() == n,
            i <= n,
            forall|k: int| i <= k < n ==> pending@[k] == orig[k],
            forall|k: int| 0 <= k < i ==> #[trigger] orig[k]@.len() == cols,
            cells@.len() == i * cols,
            forall|k: int, j: int| 0 <= k < i && 0 <= j < cols ==> cells@[k * cols + j] == (#[trigger] orig[k]@[j]),
        decreases n - i,
    {
        let mut row: Vec<TypedCell> = Vec::new();
        pending.set_and_swap(i, &mut row);
        assert(row == orig[i as int]);
        if row.len() != cols {
            assert(orig[i as int]@.len() != cols);
            assert(!(forall|k: int| 0 <= k < orig.len() ==> #[trigger] orig[k]@.len() == cols));
            return None;
        }
        cells.append(&mut row);
        proof {
            assert forall|k: int, j: int| 0 <= k < i + 1 && 0 <= j < cols implies cells@[k * cols + j] == (#[trigger] orig[k]@[j]) by {
                if k < i {
                    assert(k * cols + j < i * cols) by (nonlinear_arith)
                        requires k < i, 0 <= j < cols;
                } else {
                    assert(k * cols + j == i * cols + j) by (nonlinear_arith)
                        requires k == i;
                }
            }
            assert((i + 1) * cols == i * cols + cols) by (nonlinear_arith);
        }
        i = i + 1;
    }
    let r = shape_cells(n, cols, cells);
    proof {
        if r is Some {
            let m = r->0;
            assert forall|k: int, j: int| 0 <= k < n && 0 <= j < cols implies grid_cells(m)[k * cols + j] == (#[trigger] orig[k]@[j])@ by {
                assert(0 <= k * cols + j < n * cols) by (nonlinear_arith)
                    requires 0 <= k < n, 0 <= j < cols;
            }
        }
    }
    r
}

} // verus!
