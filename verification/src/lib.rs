//! Small algebra utilities: counting functions and a dense matrix over any
//! scalar type, with the matrix laws proved for scalars whose arithmetic is
//! exact.

pub mod combinatorics;
pub mod grid;
pub mod laws;
pub mod matrix;
pub mod scalar;
