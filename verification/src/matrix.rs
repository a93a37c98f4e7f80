//! A dense matrix with shape-checked construction, row operations and
//! arithmetic.

use vstd::prelude::*;
use crate::grid::{dot, dot_or_zero, gap, Grid};
use crate::scalar::Scalar;

verus! {

/// Why an operation was refused.
#[derive(Debug, Clone, Copy, PartialEq, Eq)]
pub enum ErrorKind {
    /// Two extents that had to agree do not. For a sum or a difference,
    /// `row_diff` and `col_diff` are the distances between the operands' row
    /// counts and column counts. Elsewhere `row_diff` is zero and `col_diff`
    /// is the distance between the one pair of extents compared: the width
    /// of the matrix and the length of a new row, the left operand's columns
    /// and the right operand's rows, or the rows and columns of a matrix that
    /// had to be square.
    ShapeMismatch { row_diff: usize, col_diff: usize },
    /// There is no row `index`.
    IndexOutOfBounds { index: usize },
    /// The scalar is zero.
    InvalidArgument,
}

/// The cause of a matrix error.
#[derive(Debug, Clone, Copy, PartialEq, Eq)]
pub struct ErrorCause {
    pub kind: ErrorKind,
}

/// What a matrix operation returns in place of a result.
#[derive(Debug, Clone, Copy, PartialEq, Eq)]
pub struct MatrixError {
    pub reason: ErrorCause,
}

impl MatrixError {
    /// The error for extents that do not agree.
    pub open spec fn shape_mismatch(row_diff: nat, col_diff: nat) -> MatrixError {
        MatrixError {
            reason: ErrorCause {
                kind: ErrorKind::ShapeMismatch {
                    row_diff: row_diff as usize,
                    col_diff: col_diff as usize,
                },
            },
        }
    }

    /// The error for a row that the matrix does not have.
    pub open spec fn index_out_of_bounds(index: usize) -> MatrixError {
        MatrixError { reason: ErrorCause { kind: ErrorKind::IndexOutOfBounds { index } } }
    }

    /// The error for a zero scalar.
    pub open spec fn invalid_argument() -> MatrixError {
        MatrixError { reason: ErrorCause { kind: ErrorKind::InvalidArgument } }
    }

    fn shape(row_diff: usize, col_diff: usize) -> (e: MatrixError)
        ensures
            e == MatrixError::shape_mismatch(row_diff as nat, col_diff as nat),
    {
        MatrixError { reason: ErrorCause { kind: ErrorKind::ShapeMismatch { row_diff, col_diff } } }
    }

    fn index(index: usize) -> (e: MatrixError)
        ensures
            e == MatrixError::index_out_of_bounds(index),
    {
        MatrixError { reason: ErrorCause { kind: ErrorKind::IndexOutOfBounds { index } } }
    }

    fn zero_scalar() -> (e: MatrixError)
        ensures
            e == MatrixError::invalid_argument(),
    {
        MatrixError { reason: ErrorCause { kind: ErrorKind::InvalidArgument } }
    }
}

/// A `rows` by `cols` matrix. Its operations return new matrices; none
/// changes a matrix in place. The two extents are public to read: a matrix
/// is well-formed as long as they are left as its constructor set them.
#[derive(Debug)]
pub struct Matrix<T: Scalar> {
    pub rows: usize,
    pub cols: usize,
    mat: Vec<Vec<T>>,
}

impl<T: Scalar> View for Matrix<T> {
    type V = Grid<T>;

    closed spec fn view(&self) -> Grid<T> {
        Grid {
            rows: self.rows as nat,
            cols: self.cols as nat,
            cells: Seq::new(self.mat@.len(), |i: int| self.mat@[i]@),
        }
    }
}

/// Returns the distance between two extents.
fn distance(a: usize, b: usize) -> (d: usize)
    ensures
        d == gap(a as nat, b as nat),
{
    if a >= b {
        a - b
    } else {
        b - a
    }
}

/// Returns `len` zeros.
fn zero_row<T: Scalar>(len: usize) -> (row: Vec<T>)
    ensures
        row@ == Seq::new(len as nat, |k: int| T::spec_zero()),
{
    let mut row: Vec<T> = Vec::new();
    while row.len() < len
        invariant
            row.len() <= len,
            forall|k: int| 0 <= k < row.len() ==> row@[k] == T::spec_zero(),
        decreases len - row.len(),
    {
        row.push(T::zero());
    }
    assert(row@ =~= Seq::new(len as nat, |k: int| T::spec_zero()));
    row
}

impl<T: Scalar> Matrix<T> {
    /// The backing table has `rows` rows of `cols` entries each.
    pub open spec fn wf(&self) -> bool {
        self@.wf()
    }

    /// The view, spelled out over the backing table.
    proof fn lemma_view(&self)
        ensures
            self@.rows == self.rows,
            self@.cols == self.cols,
            self@.cells.len() == self.mat@.len(),
            forall|i: int| 0 <= i < self.mat@.len() ==> #[trigger] self@.cells[i] == self.mat@[i]@,
            forall|i: int| 0 <= i < self.mat@.len() ==> (#[trigger] self.mat@[i])@ == self@.cells[i],
            self.wf() <==> self.shaped(),
    {
        if self.wf() {
            assert forall|i: int| 0 <= i < self.rows implies (#[trigger] self.mat@[i])@.len()
                == self.cols by {
                assert(self@.cells[i].len() == self.cols);
            }
        }
    }

    /// Well-formedness over the backing table.
    spec fn shaped(&self) -> bool {
        &&& self.mat@.len() == self.rows
        &&& forall|i: int| 0 <= i < self.rows ==> (#[trigger] self.mat@[i])@.len() == self.cols
    }

    /// Returns the `rows` by `cols` matrix of zeros.
    pub fn new(rows: usize, cols: usize) -> (m: Matrix<T>)
        ensures
            m.wf(),
            m@.rows == rows,
            m@.cols == cols,
            m@ == Grid::<T>::zeros(rows as nat, cols as nat),
    {
        let mut outer: Vec<Vec<T>> = Vec::new();
        while outer.len() < rows
            invariant
                outer.len() <= rows,
                forall|i: int|
                    0 <= i < outer.len() ==> (#[trigger] outer@[i])@ == Seq::new(
                        cols as nat,
                        |k: int| T::spec_zero(),
                    ),
            decreases rows - outer.len(),
        {
            outer.push(zero_row(cols));
        }
        let m = Matrix { rows, cols, mat: outer };
        assert(m@.cells =~~= Grid::<T>::zeros(rows as nat, cols as nat).cells);
        m
    }

    /// Returns the identity matrix of the given shape, or nothing where the
    /// shape is not square.
    pub fn identity(rows: usize, cols: usize) -> (r: Option<Matrix<T>>)
        ensures
            match r {
                Some(m) => rows == cols && m.wf() && m@ == Grid::<T>::identity(rows as nat),
                None => rows != cols,
            },
    {
        if rows == cols {
            let mut m = Matrix::new(rows, cols);
            proof {
                m.lemma_view();
            }
            let mut r: usize = 0;
            while r < rows
                invariant
                    r <= rows,
                    rows == cols,
                    m.rows == rows,
                    m.cols == cols,
                    m.shaped(),
                    forall|i: int, j: int|
                        0 <= i < rows && 0 <= j < cols ==> #[trigger] m.mat@[i]@[j] == (if i == j
                            && i < r {
                            T::spec_one()
                        } else {
                            T::spec_zero()
                        }),
                decreases rows - r,
            {
                m.mat[r][r] = T::one();
                r += 1;
            }
            proof {
                m.lemma_view();
                assert(m@.cells =~~= Grid::<T>::identity(rows as nat).cells);
            }
            Some(m)
        } else {
            None
        }
    }

    /// Whether the matrix has as many rows as columns.
    pub fn is_square(&self) -> (b: bool)
        ensures
            b == (self@.rows == self@.cols),
    {
        self.cols == self.rows
    }

    /// Returns the entrywise sum of two matrices of one shape.
    pub fn add(m1: &Matrix<T>, m2: &Matrix<T>) -> (r: Result<Matrix<T>, MatrixError>)
        requires
            m1.wf(),
            m2.wf(),
        ensures
            match r {
                Ok(m) => m1@.same_shape(m2@) && m.wf() && m@ == m1@.plus(m2@),
                Err(e) => !m1@.same_shape(m2@) && e == MatrixError::shape_mismatch(
                    gap(m1@.rows, m2@.rows),
                    gap(m1@.cols, m2@.cols),
                ),
            },
    {
        proof {
            m1.lemma_view();
            m2.lemma_view();
        }
        if m1.rows == m2.rows && m1.cols == m2.cols {
            let mut res = Matrix::new(m1.rows, m1.cols);
            proof {
                res.lemma_view();
            }
            let mut i: usize = 0;
            while i < m2.rows
                invariant
                    i <= m2.rows,
                    m1.shaped(),
                    m2.shaped(),
                    res.shaped(),
                    res.rows == m1.rows == m2.rows,
                    res.cols == m1.cols == m2.cols,
                    forall|a: int, b: int|
                        0 <= a < i && 0 <= b < res.cols ==> #[trigger] res.mat@[a]@[b]
                            == m1.mat@[a]@[b].spec_plus(m2.mat@[a]@[b]),
                decreases m2.rows - i,
            {
                let mut j: usize = 0;
                while j < m2.cols
                    invariant
                        i < m2.rows,
                        j <= m2.cols,
                        m1.shaped(),
                        m2.shaped(),
                        res.shaped(),
                        res.rows == m1.rows == m2.rows,
                        res.cols == m1.cols == m2.cols,
                        forall|a: int, b: int|
                            0 <= a < i && 0 <= b < res.cols ==> #[trigger] res.mat@[a]@[b]
                                == m1.mat@[a]@[b].spec_plus(m2.mat@[a]@[b]),
                        forall|b: int|
                            0 <= b < j ==> #[trigger] res.mat@[i as int]@[b]
                                == m1.mat@[i as int]@[b].spec_plus(m2.mat@[i as int]@[b]),
                    decreases m2.cols - j,
                {
                    res.mat[i][j] = m1.mat[i][j].plus(m2.mat[i][j]);
                    j += 1;
                }
                i += 1;
            }
            proof {
                res.lemma_view();
                assert(res@.cells =~~= m1@.plus(m2@).cells);
            }
            Ok(res)
        } else {
            Err(MatrixError::shape(distance(m1.rows, m2.rows), distance(m1.cols, m2.cols)))
        }
    }

    /// Returns the entrywise difference of two matrices of one shape.
    pub fn subtract(m1: &Matrix<T>, m2: &Matrix<T>) -> (r: Result<Matrix<T>, MatrixError>)
        requires
            m1.wf(),
            m2.wf(),
        ensures
            match r {
                Ok(m) => m1@.same_shape(m2@) && m.wf() && m@ == m1@.minus(m2@),
                Err(e) => !m1@.same_shape(m2@) && e == MatrixError::shape_mismatch(
                    gap(m1@.rows, m2@.rows),
                    gap(m1@.cols, m2@.cols),
                ),
            },
    {
        proof {
            m1.lemma_view();
            m2.lemma_view();
        }
        if m1.rows == m2.rows && m1.cols == m2.cols {
            let mut res = Matrix::new(m1.rows, m1.cols);
            proof {
                res.lemma_view();
            }
            let mut i: usize = 0;
            while i < m2.rows
                invariant
                    i <= m2.rows,
                    m1.shaped(),
                    m2.shaped(),
                    res.shaped(),
                    res.rows == m1.rows == m2.rows,
                    res.cols == m1.cols == m2.cols,
                    forall|a: int, b: int|
                        0 <= a < i && 0 <= b < res.cols ==> #[trigger] res.mat@[a]@[b]
                            == m1.mat@[a]@[b].spec_minus(m2.mat@[a]@[b]),
                decreases m2.rows - i,
            {
                let mut j: usize = 0;
                while j < m2.cols
                    invariant
                        i < m2.rows,
                        j <= m2.cols,
                        m1.shaped(),
                        m2.shaped(),
                        res.shaped(),
                        res.rows == m1.rows == m2.rows,
                        res.cols == m1.cols == m2.cols,
                        forall|a: int, b: int|
                            0 <= a < i && 0 <= b < res.cols ==> #[trigger] res.mat@[a]@[b]
                                == m1.mat@[a]@[b].spec_minus(m2.mat@[a]@[b]),
                        forall|b: int|
                            0 <= b < j ==> #[trigger] res.mat@[i as int]@[b]
                                == m1.mat@[i as int]@[b].spec_minus(m2.mat@[i as int]@[b]),
                    decreases m2.cols - j,
                {
                    res.mat[i][j] = m1.mat[i][j].minus(m2.mat[i][j]);
                    j += 1;
                }
                i += 1;
            }
            proof {
                res.lemma_view();
                assert(res@.cells =~~= m1@.minus(m2@).cells);
            }
            Ok(res)
        } else {
            Err(MatrixError::shape(distance(m1.rows, m2.rows), distance(m1.cols, m2.cols)))
        }
    }

    /// Multiplies every entry of one row by a scalar that is not zero.
    pub fn scalar_row_mul(self, row_num: usize, scalar: T) -> (r: Result<Matrix<T>, MatrixError>)
        requires
            self.wf(),
        ensures
            match r {
                Ok(m) => {
                    &&& !scalar.spec_is_zero()
                    &&& row_num < self@.rows
                    &&& m.wf()
                    &&& m@ == self@.scale_row(row_num as int, scalar)
                },
                Err(e) => if scalar.spec_is_zero() {
                    e == MatrixError::invalid_argument()
                } else {
                    row_num >= self@.rows && e == MatrixError::index_out_of_bounds(row_num)
                },
            },
    {
        proof {
            self.lemma_view();
        }
        if scalar.is_zero() {
            return Err(MatrixError::zero_scalar());
        }
        if row_num < self.rows {
            let mut m = self;
            let mut j: usize = 0;
            while j < m.cols
                invariant
                    j <= m.cols,
                    row_num < m.rows,
                    self.shaped(),
                    m.shaped(),
                    m.rows == self.rows,
                    m.cols == self.cols,
                    forall|a: int|
                        0 <= a < m.rows && a != row_num ==> #[trigger] m.mat@[a] == self.mat@[a],
                    forall|b: int|
                        0 <= b < m.cols ==> #[trigger] m.mat@[row_num as int]@[b] == (if b < j {
                            self.mat@[row_num as int]@[b].spec_times(scalar)
                        } else {
                            self.mat@[row_num as int]@[b]
                        }),
                decreases m.cols - j,
            {
                let scaled = m.mat[row_num][j].times(scalar);
                m.mat[row_num][j] = scaled;
                j += 1;
            }
            proof {
                m.lemma_view();
                assert(m@.cells =~~= self@.scale_row(row_num as int, scalar).cells);
            }
            Ok(m)
        } else {
            Err(MatrixError::index(row_num))
        }
    }

    /// Returns the entries of the main diagonal, from the first row down.
    pub fn get_principal(&self) -> (r: Result<Vec<T>, MatrixError>)
        requires
            self.wf(),
        ensures
            match r {
                Ok(v) => self@.rows == self@.cols && v@ == self@.diagonal(),
                Err(e) => {
                    &&& self@.rows != self@.cols
                    &&& e == MatrixError::shape_mismatch(0, gap(self@.rows, self@.cols))
                },
            },
    {
        proof {
            self.lemma_view();
        }
        let mut principal: Vec<T> = Vec::new();
        if self.is_square() {
            let mut r: usize = 0;
            while r < self.rows
                invariant
                    r <= self.rows,
                    self.rows == self.cols,
                    self.shaped(),
                    principal@.len() == r,
                    forall|i: int| 0 <= i < r ==> #[trigger] principal@[i] == self.mat@[i]@[i],
                decreases self.rows - r,
            {
                principal.push(self.mat[r][r]);
                r += 1;
            }
            assert(principal@ =~= self@.diagonal());
            Ok(principal)
        } else {
            Err(MatrixError::shape(0, distance(self.rows, self.cols)))
        }
    }

    /// Replaces one row. The new row must have as many entries as the matrix
    /// has columns; where it has, `row_num` must name a row of the matrix.
    pub fn replace_row(self, row_num: usize, row: Vec<T>) -> (r: Result<Matrix<T>, MatrixError>)
        requires
            self.wf(),
            row@.len() == self@.cols ==> row_num < self@.rows,
        ensures
            match r {
                Ok(m) => {
                    &&& row@.len() == self@.cols
                    &&& m.wf()
                    &&& m@ == self@.with_row(row_num as int, row@)
                },
                Err(e) => {
                    &&& row@.len() != self@.cols
                    &&& e == MatrixError::shape_mismatch(0, gap(self@.cols, row@.len()))
                },
            },
    {
        proof {
            self.lemma_view();
        }
        if self.cols != row.len() {
            Err(MatrixError::shape(0, distance(self.cols, row.len())))
        } else {
            let mut m = self;
            m.mat[row_num] = row;
            proof {
                m.lemma_view();
                assert(m@.cells =~~= self@.with_row(row_num as int, row@).cells);
            }
            Ok(m)
        }
    }

    /// Returns the transposed matrix: its entry `(j, i)` is entry `(i, j)` of
    /// `m`.
    pub fn transpose(m: Matrix<T>) -> (t: Matrix<T>)
        requires
            m.wf(),
        ensures
            t.wf(),
            t@ == m@.transpose(),
    {
        proof {
            m.lemma_view();
        }
        let mut c: usize = 0;
        let mut mat = Matrix::new(m.cols, m.rows);
        proof {
            mat.lemma_view();
        }
        while m.cols > c
            invariant
                c <= m.cols,
                m.shaped(),
                mat.wf(),
                mat.rows == m.cols,
                mat.cols == m.rows,
                forall|i: int, j: int|
                    0 <= i < c && 0 <= j < m.rows ==> #[trigger] mat@.cells[i][j] == m.mat@[j]@[i],
            decreases m.cols - c,
        {
            let mut r: usize = 0;
            let mut v: Vec<T> = Vec::new();
            while m.rows > r
                invariant
                    r <= m.rows,
                    c < m.cols,
                    m.shaped(),
                    v@.len() == r,
                    forall|j: int| 0 <= j < r ==> #[trigger] v@[j] == m.mat@[j]@[c as int],
                decreases m.rows - r,
            {
                v.push(m.mat[r][c]);
                r += 1;
            }
            proof {
                mat.lemma_view();
            }
            mat = mat.replace_row(c, v).unwrap();
            proof {
                mat.lemma_view();
            }
            c += 1;
        }
        proof {
            mat.lemma_view();
            assert(mat@.cells =~~= m@.transpose().cells);
        }
        mat
    }

    /// Multiplies every entry by a scalar that is not zero, row by row.
    pub fn scalar_mat_mul(self, scalar: T) -> (r: Result<Matrix<T>, MatrixError>)
        requires
            self.wf(),
        ensures
            match r {
                Ok(m) => !scalar.spec_is_zero() && m.wf() && m@ == self@.scale(scalar),
                Err(e) => scalar.spec_is_zero() && e == MatrixError::invalid_argument(),
            },
    {
        proof {
            self.lemma_view();
        }
        if scalar.is_zero() {
            Err(MatrixError::zero_scalar())
        } else {
            let ghost before = self@;
            let rows = self.rows;
            let mut m = self;
            let mut r: usize = 0;
            while r < rows
                invariant
                    r <= rows,
                    rows == before.rows,
                    !scalar.spec_is_zero(),
                    before.wf(),
                    m.wf(),
                    m@.rows == before.rows,
                    m@.cols == before.cols,
                    forall|i: int, j: int|
                        0 <= i < before.rows && 0 <= j < before.cols ==> #[trigger] m@.cells[i][j]
                            == (if i < r {
                            before.cells[i][j].spec_times(scalar)
                        } else {
                            before.cells[i][j]
                        }),
                decreases rows - r,
            {
                match m.scalar_row_mul(r, scalar) {
                    Ok(scaled) => {
                        m = scaled;
                    },
                    Err(e) => {
                        return Err(e);
                    },
                }
                r += 1;
            }
            proof {
                assert(m@.cells =~~= before.scale(scalar).cells);
            }
            Ok(m)
        }
    }

    /// Returns a copy of one row.
    pub fn get_row(&self, row_num: usize) -> (r: Result<Vec<T>, MatrixError>)
        requires
            self.wf(),
        ensures
            match r {
                Ok(v) => row_num < self@.rows && v@ == self@.row(row_num as int),
                Err(e) => row_num >= self@.rows && e == MatrixError::index_out_of_bounds(row_num),
            },
    {
        proof {
            self.lemma_view();
        }
        if row_num >= self.rows {
            Err(MatrixError::index(row_num))
        } else {
            let mut row: Vec<T> = Vec::new();
            let mut j: usize = 0;
            while j < self.cols
                invariant
                    j <= self.cols,
                    row_num < self.rows,
                    self.shaped(),
                    row@.len() == j,
                    forall|k: int| 0 <= k < j ==> #[trigger] row@[k] == self.mat@[row_num as int]@[k],
                decreases self.cols - j,
            {
                row.push(self.mat[row_num][j]);
                j += 1;
            }
            assert(row@ =~= self@.row(row_num as int));
            Ok(row)
        }
    }

    /// Returns a copy of one column. For a column that the matrix does not
    /// have, returns as many zeros as the matrix has columns.
    pub fn get_col(&self, col_num: usize) -> (c: Vec<T>)
        requires
            self.wf(),
        ensures
            c@ == self@.col_or_zeros(col_num as int),
    {
        proof {
            self.lemma_view();
        }
        if col_num >= self.cols {
            zero_row(self.cols)
        } else {
            let mut c: Vec<T> = Vec::new();
            let mut i: usize = 0;
            while i < self.rows
                invariant
                    i <= self.rows,
                    col_num < self.cols,
                    self.shaped(),
                    c@.len() == i,
                    forall|k: int| 0 <= k < i ==> #[trigger] c@[k] == self.mat@[k]@[col_num as int],
                decreases self.rows - i,
            {
                c.push(self.mat[i][col_num]);
                i += 1;
            }
            assert(c@ =~= self@.col(col_num as int));
            c
        }
    }

    /// Returns the sum of the pairwise products of two vectors, or zero where
    /// their lengths differ.
    pub fn dot_product(v1: &Vec<T>, v2: &Vec<T>) -> (d: T)
        ensures
            d == dot_or_zero(v1@, v2@),
    {
        if v1.len() != v2.len() {
            T::zero()
        } else {
            let mut result = T::zero();
            let mut i: usize = 0;
            while i < v1.len()
                invariant
                    i <= v1.len(),
                    v1.len() == v2.len(),
                    result == dot(v1@.take(i as int), v2@.take(i as int)),
                decreases v1.len() - i,
            {
                proof {
                    assert(v1@.take(i + 1).drop_last() =~= v1@.take(i as int));
                    assert(v2@.take(i + 1).drop_last() =~= v2@.take(i as int));
                }
                result = result.plus(v1[i].times(v2[i]));
                i += 1;
            }
            proof {
                assert(v1@.take(i as int) =~= v1@);
                assert(v2@.take(i as int) =~= v2@);
            }
            result
        }
    }

    /// Returns the matrix product of `m1` and `m2`, which exists where `m1`
    /// has as many columns as `m2` has rows.
    pub fn multiply(m1: &Matrix<T>, m2: &Matrix<T>) -> (r: Result<Matrix<T>, MatrixError>)
        requires
            m1.wf(),
            m2.wf(),
        ensures
            match r {
                Ok(m) => m1@.cols == m2@.rows && m.wf() && m@ == m1@.times(m2@),
                Err(e) => {
                    &&& m1@.cols != m2@.rows
                    &&& e == MatrixError::shape_mismatch(0, gap(m1@.cols, m2@.rows))
                },
            },
    {
        proof {
            m1.lemma_view();
            m2.lemma_view();
        }
        if m1.cols != m2.rows {
            return Err(MatrixError::shape(0, distance(m1.cols, m2.rows)));
        }
        let mut result = Matrix::new(m1.rows, m2.cols);
        proof {
            result.lemma_view();
        }
        for i in 0..m1.rows
            invariant
                m1.wf(),
                m2.wf(),
                m1.shaped(),
                m2.shaped(),
                result.shaped(),
                m1.cols == m2.rows,
                result.rows == m1.rows,
                result.cols == m2.cols,
                forall|a: int, b: int|
                    0 <= a < i && 0 <= b < m2.cols ==> #[trigger] result.mat@[a]@[b] == dot(
                        m1@.row(a),
                        m2@.col(b),
                    ),
        {
            for j in 0..m2.cols
                invariant
                    i < m1.rows,
                    m1.wf(),
                    m2.wf(),
                    m1.shaped(),
                    m2.shaped(),
                    result.shaped(),
                    m1.cols == m2.rows,
                    result.rows == m1.rows,
                    result.cols == m2.cols,
                    forall|a: int, b: int|
                        0 <= a < i && 0 <= b < m2.cols ==> #[trigger] result.mat@[a]@[b] == dot(
                            m1@.row(a),
                            m2@.col(b),
                        ),
                    forall|b: int|
                        0 <= b < j ==> #[trigger] result.mat@[i as int]@[b] == dot(
                            m1@.row(i as int),
                            m2@.col(b),
                        ),
            {
                proof {
                    m1.lemma_view();
                    m2.lemma_view();
                }
                let column = m2.get_col(j);
                let entry = Matrix::dot_product(&m1.mat[i], &column);
                result.mat[i][j] = entry;
            }
        }
        proof {
            result.lemma_view();
            assert(result@.cells =~~= m1@.times(m2@).cells);
        }
        Ok(result)
    }
}

} // verus!
