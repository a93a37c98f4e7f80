//! The mathematical model of a matrix: a shape and a table of entries.

use vstd::prelude::*;
use crate::scalar::Scalar;

verus! {

/// What a matrix is: `rows` sequences of `cols` entries each. The shape is
/// kept beside the table, so that a matrix without rows still has a width.
pub struct Grid<T> {
    pub rows: nat,
    pub cols: nat,
    pub cells: Seq<Seq<T>>,
}

/// The distance between two extents.
pub open spec fn gap(a: nat, b: nat) -> nat {
    if a >= b {
        (a - b) as nat
    } else {
        (b - a) as nat
    }
}

/// The sum of the pairwise products of two sequences of one length, taken
/// from the left, starting at zero.
pub open spec fn dot<T: Scalar>(a: Seq<T>, b: Seq<T>) -> T
    decreases a.len(),
{
    if a.len() == 0 {
        T::spec_zero()
    } else {
        dot(a.drop_last(), b.drop_last()).spec_plus(a.last().spec_times(b.last()))
    }
}

/// The dot product as the library computes it: zero for sequences of
/// different lengths.
pub open spec fn dot_or_zero<T: Scalar>(a: Seq<T>, b: Seq<T>) -> T {
    if a.len() == b.len() {
        dot(a, b)
    } else {
        T::spec_zero()
    }
}

impl<T> Grid<T> {
    /// The table has the shape that the grid claims.
    pub open spec fn wf(self) -> bool {
        &&& self.cells.len() == self.rows
        &&& forall|i: int| 0 <= i < self.rows ==> (#[trigger] self.cells[i]).len() == self.cols
    }

    pub open spec fn same_shape(self, other: Grid<T>) -> bool {
        self.rows == other.rows && self.cols == other.cols
    }

    /// The grid of the given shape whose entry at `(i, j)` is `f(i, j)`.
    pub open spec fn tabulate(rows: nat, cols: nat, f: spec_fn(int, int) -> T) -> Grid<T> {
        Grid { rows, cols, cells: Seq::new(rows, |i: int| Seq::new(cols, |j: int| f(i, j))) }
    }

    pub open spec fn at(self, i: int, j: int) -> T {
        self.cells[i][j]
    }

    pub open spec fn row(self, i: int) -> Seq<T> {
        self.cells[i]
    }

    pub open spec fn col(self, j: int) -> Seq<T> {
        Seq::new(self.rows, |i: int| self.cells[i][j])
    }

    /// The entries `(i, i)`, one for each row.
    pub open spec fn diagonal(self) -> Seq<T> {
        Seq::new(self.rows, |i: int| self.cells[i][i])
    }

    pub open spec fn with_row(self, i: int, row: Seq<T>) -> Grid<T> {
        Grid { rows: self.rows, cols: self.cols, cells: self.cells.update(i, row) }
    }

    pub open spec fn transpose(self) -> Grid<T> {
        Grid::tabulate(self.cols, self.rows, |i: int, j: int| self.cells[j][i])
    }
}

impl<T: Scalar> Grid<T> {
    pub open spec fn zeros(rows: nat, cols: nat) -> Grid<T> {
        Grid::tabulate(rows, cols, |i: int, j: int| T::spec_zero())
    }

    pub open spec fn identity(n: nat) -> Grid<T> {
        Grid::tabulate(
            n,
            n,
            |i: int, j: int|
                if i == j {
                    T::spec_one()
                } else {
                    T::spec_zero()
                },
        )
    }

    /// Column `j`, or for a `j` beyond the width as many zeros as the grid
    /// has columns.
    pub open spec fn col_or_zeros(self, j: int) -> Seq<T> {
        if j < self.cols {
            self.col(j)
        } else {
            Seq::new(self.cols, |k: int| T::spec_zero())
        }
    }

    pub open spec fn plus(self, other: Grid<T>) -> Grid<T> {
        Grid::tabulate(
            self.rows,
            self.cols,
            |i: int, j: int| self.cells[i][j].spec_plus(other.cells[i][j]),
        )
    }

    pub open spec fn minus(self, other: Grid<T>) -> Grid<T> {
        Grid::tabulate(
            self.rows,
            self.cols,
            |i: int, j: int| self.cells[i][j].spec_minus(other.cells[i][j]),
        )
    }

    /// Every entry of row `r` multiplied by `s`; the other rows as they are.
    pub open spec fn scale_row(self, r: int, s: T) -> Grid<T> {
        Grid::tabulate(
            self.rows,
            self.cols,
            |i: int, j: int|
                if i == r {
                    self.cells[i][j].spec_times(s)
                } else {
                    self.cells[i][j]
                },
        )
    }

    /// Every entry multiplied by `s`.
    pub open spec fn scale(self, s: T) -> Grid<T> {
        Grid::tabulate(self.rows, self.cols, |i: int, j: int| self.cells[i][j].spec_times(s))
    }

    /// The matrix product: entry `(i, j)` is the dot product of row `i` of
    /// `self` and column `j` of `other`.
    pub open spec fn times(self, other: Grid<T>) -> Grid<T> {
        Grid::tabulate(self.rows, other.cols, |i: int, j: int| dot(self.row(i), other.col(j)))
    }
}

} // verus!
