//! The storage of a grid: a two-dimensional boolean array of the `ndarray`
//! crate. Nothing in this file is proved; each contract states what the
//! crate's documentation and source show of the call it wraps.

use ndarray::Array2;
use vstd::prelude::*;

verus! {

/// An `ndarray::Array2<bool>`, laid out with one array row per grid row.
#[verifier::external_body]
pub struct CellArray {
    inner: Array2<bool>,
}

/// The elements of the array, row by row: `cell_rows(a)[r][c]` is the element
/// that `ndarray` indexes by `(r, c)`.
pub uninterp spec fn cell_rows(a: CellArray) -> Seq<Seq<bool>>;

/// The length of the array's second axis, which an array with no rows still
/// has.
pub uninterp spec fn cell_cols(a: CellArray) -> nat;

/// The shape `(rows, cols)` is one that `ndarray` can allocate: the product of
/// its axis lengths, leaving out those that are zero, fits in an `isize`.
pub open spec fn shape_fits(rows: usize, cols: usize) -> bool {
    if rows == 0 {
        cols <= isize::MAX
    } else if cols == 0 {
        rows <= isize::MAX
    } else {
        rows * cols <= isize::MAX
    }
}

impl CellArray {
    /// `Array2::from_elem((rows, cols), value)`: an array of that shape whose
    /// every element is `value`. The call panics on a shape that does not fit,
    /// which `requires` leaves out.
    #[verifier::external_body]
    pub(crate) fn from_elem(rows: usize, cols: usize, value: bool) -> (a: CellArray)
        requires
            shape_fits(rows, cols),
        ensures
            cell_rows(a).len() == rows,
            cell_cols(a) == cols,
            forall|r: int, c: int|
                0 <= r < rows && 0 <= c < cols ==> #[trigger] cell_rows(a)[r][c] == value,
    {
        CellArray { inner: Array2::from_elem((rows, cols), value) }
    }

    /// `ArrayBase::nrows`: the length of the first axis.
    #[verifier::external_body]
    pub(crate) fn nrows(&self) -> (n: usize)
        ensures
            n == cell_rows(*self).len(),
    {
        self.inner.nrows()
    }

    /// `ArrayBase::ncols`: the length of the second axis.
    #[verifier::external_body]
    pub(crate) fn ncols(&self) -> (n: usize)
        ensures
            n == cell_cols(*self),
    {
        self.inner.ncols()
    }

    /// Indexing by a pair, `array[(row, col)]`: the element at that place. It
    /// panics out of bounds, which `requires` leaves out.
    #[verifier::external_body]
    pub(crate) fn get(&self, row: usize, col: usize) -> (value: bool)
        requires
            row < cell_rows(*self).len(),
            col < cell_cols(*self),
        ensures
            value == cell_rows(*self)[row as int][col as int],
    {
        self.inner[(row, col)]
    }

    /// Assigning through a pair index, `array[(row, col)] = value`: that
    /// element becomes `value`, every other element and the shape stay. It
    /// panics out of bounds, which `requires` leaves out.
    #[verifier::external_body]
    pub(crate) fn set(&mut self, row: usize, col: usize, value: bool)
        requires
            row < cell_rows(*old(self)).len(),
            col < cell_cols(*old(self)),
        ensures
            cell_rows(*final(self)).len() == cell_rows(*old(self)).len(),
            cell_cols(*final(self)) == cell_cols(*old(self)),
            cell_rows(*final(self))[row as int][col as int] == value,
            forall|r: int, c: int|
                0 <= r < cell_rows(*old(self)).len() && 0 <= c < cell_cols(*old(self)) && (r != row
                    || c != col) ==> #[trigger] cell_rows(*final(self))[r][c] == cell_rows(
                    *old(self),
                )[r][c],
    {
        self.inner[(row, col)] = value;
    }
}

} // verus!
