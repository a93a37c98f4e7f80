//! Laws of the matrix operations, stated over the model that the
//! operations' contracts use.

use vstd::prelude::*;
use crate::grid::{dot, Grid};
use crate::scalar::{ExactScalar, Scalar};

verus! {

/// The zero matrix has the shape asked for, and each of its entries is zero.
pub proof fn lemma_zeros<T: Scalar>(rows: nat, cols: nat)
    ensures
        Grid::<T>::zeros(rows, cols).wf(),
        Grid::<T>::zeros(rows, cols).rows == rows,
        Grid::<T>::zeros(rows, cols).cols == cols,
        forall|i: int, j: int|
            0 <= i < rows && 0 <= j < cols ==> #[trigger] Grid::<T>::zeros(rows, cols).at(i, j)
                == T::spec_zero(),
{
}

/// The identity matrix is square, with one on its diagonal and zero
/// everywhere else.
pub proof fn lemma_identity<T: Scalar>(n: nat)
    ensures
        Grid::<T>::identity(n).wf(),
        Grid::<T>::identity(n).rows == n,
        Grid::<T>::identity(n).cols == n,
        forall|i: int|
            0 <= i < n ==> #[trigger] Grid::<T>::identity(n).at(i, i) == T::spec_one(),
        forall|i: int, j: int|
            0 <= i < n && 0 <= j < n && i != j ==> #[trigger] Grid::<T>::identity(n).at(i, j)
                == T::spec_zero(),
{
}

/// Transposing swaps the two extents and the two indices of every entry.
pub proof fn lemma_transpose<T>(g: Grid<T>)
    requires
        g.wf(),
    ensures
        g.transpose().wf(),
        g.transpose().rows == g.cols,
        g.transpose().cols == g.rows,
        forall|i: int, j: int|
            0 <= i < g.rows && 0 <= j < g.cols ==> #[trigger] g.transpose().at(j, i) == g.at(i, j),
{
}

/// Transposing twice gives the matrix back.
pub proof fn lemma_transpose_transpose<T>(g: Grid<T>)
    requires
        g.wf(),
    ensures
        g.transpose().transpose() == g,
{
    assert(g.transpose().transpose().cells =~~= g.cells);
}

/// The dot product with a unit vector picks one entry: where `a` is one at
/// `i` and zero elsewhere, its dot product with `b` is `b[i]`.
pub proof fn lemma_dot_unit<T: ExactScalar>(a: Seq<T>, b: Seq<T>, i: int)
    requires
        a.len() == b.len(),
        0 <= i,
        forall|k: int|
            0 <= k < a.len() ==> #[trigger] a[k] == (if k == i {
                T::spec_one()
            } else {
                T::spec_zero()
            }),
    ensures
        dot(a, b) == (if i < a.len() {
            b[i]
        } else {
            T::spec_zero()
        }),
    decreases a.len(),
{
    if a.len() > 0 {
        let last = a.len() - 1;
        lemma_dot_unit(a.drop_last(), b.drop_last(), i);
        if last == i {
            T::lemma_one_times(b[last]);
            T::lemma_zero_plus(b[last]);
        } else {
            T::lemma_zero_times(b[last]);
            T::lemma_plus_zero(dot(a.drop_last(), b.drop_last()));
        }
    }
}

/// The identity matrix is neutral on the left of a product.
pub proof fn lemma_identity_times<T: ExactScalar>(m: Grid<T>)
    requires
        m.wf(),
    ensures
        Grid::<T>::identity(m.rows).times(m) == m,
{
    let id = Grid::<T>::identity(m.rows);
    let product = id.times(m);
    assert forall|i: int, j: int| 0 <= i < m.rows && 0 <= j < m.cols implies #[trigger] product.cells[i][j]
        == m.cells[i][j] by {
        lemma_dot_unit(id.row(i), m.col(j), i);
    }
    assert(product.cells =~~= m.cells);
}

/// Subtracting what was added gives the first matrix back.
pub proof fn lemma_plus_minus<T: ExactScalar>(a: Grid<T>, b: Grid<T>)
    requires
        a.wf(),
        b.wf(),
        a.same_shape(b),
    ensures
        a.plus(b).minus(b) == a,
{
    let back = a.plus(b).minus(b);
    assert forall|i: int, j: int| 0 <= i < a.rows && 0 <= j < a.cols implies #[trigger] back.cells[i][j]
        == a.cells[i][j] by {
        T::lemma_plus_minus(a.cells[i][j], b.cells[i][j]);
    }
    assert(back.cells =~~= a.cells);
}

} // verus!
