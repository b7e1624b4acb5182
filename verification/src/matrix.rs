//! The dense value storage of grid functions: nalgebra's dynamically
//! sized matrix, holding raw fixed-point values.
//!
//! The matrix is held opaquely (its type cannot be declared to the
//! verifier, as its storage parameter carries an outside trait bound);
//! what it holds is named by `mat_entries` (its entries in row-major
//! order) together with its two dimensions, and the two operations the
//! library needs are trusted wrappers whose contracts state what
//! nalgebra's documentation and source show.

use vstd::prelude::*;

verus! {

/// A dense matrix of raw fixed-point values, stored in a
/// `nalgebra::DMatrix`.
#[verifier::external_body]
pub struct ValueMatrix {
    inner: nalgebra::DMatrix<i64>,
}

/// The entries a matrix holds, row by row.
pub uninterp spec fn mat_entries(m: ValueMatrix) -> Seq<i64>;

/// The number of rows a matrix has.
pub uninterp spec fn mat_nrows(m: ValueMatrix) -> nat;

/// The number of columns a matrix has.
pub uninterp spec fn mat_ncols(m: ValueMatrix) -> nat;

/// Relies on nalgebra's `DMatrix::from_row_slice`: it builds an
/// `nrows` by `ncols` matrix whose entries are the elements of the
/// slice, filled row by row.
#[verifier::external_body]
pub(crate) fn mat_from_row_vec(nrows: usize, ncols: usize, v: &Vec<i64>) -> (m: ValueMatrix)
    requires
        v@.len() == nrows * ncols,
    ensures
        mat_nrows(m) == nrows,
        mat_ncols(m) == ncols,
        mat_entries(m) == v@,
{
    ValueMatrix { inner: nalgebra::DMatrix::from_row_slice(nrows, ncols, v.as_slice()) }
}

/// Relies on nalgebra's matrix indexing: `m[(i, j)]` is the entry of row
/// `i` and column `j`, which for a row-by-row fill is element
/// `i * ncols + j`.
#[verifier::external_body]
pub(crate) fn mat_get(m: &ValueMatrix, i: usize, j: usize) -> (r: i64)
    requires
        i < mat_nrows(*m),
        j < mat_ncols(*m),
        mat_entries(*m).len() == mat_nrows(*m) * mat_ncols(*m),
    ensures
        r == mat_entries(*m)[i * mat_ncols(*m) + j],
{
    m.inner[(i, j)]
}

} // verus!
