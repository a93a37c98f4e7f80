//! The arithmetic that a matrix needs of its entries.

use vstd::prelude::*;

verus! {

/// A type of matrix entries: two constants, three operations and a test for
/// zero. Each executable operation returns what its specification names, so
/// that a matrix of scalars can be described entry by entry.
///
/// An implementation is held to these contracts where it is verified. One
/// that is built without the verifier, such as one over machine floats, is
/// taken at its word.
pub trait Scalar: Copy {
    spec fn spec_zero() -> Self;

    spec fn spec_one() -> Self;

    spec fn spec_plus(self, rhs: Self) -> Self;

    spec fn spec_minus(self, rhs: Self) -> Self;

    spec fn spec_times(self, rhs: Self) -> Self;

    spec fn spec_is_zero(self) -> bool;

    fn zero() -> (r: Self)
        ensures
            r == Self::spec_zero(),
    ;

    fn one() -> (r: Self)
        ensures
            r == Self::spec_one(),
    ;

    fn plus(self, rhs: Self) -> (r: Self)
        ensures
            r == self.spec_plus(rhs),
    ;

    fn minus(self, rhs: Self) -> (r: Self)
        ensures
            r == self.spec_minus(rhs),
    ;

    fn times(self, rhs: Self) -> (r: Self)
        ensures
            r == self.spec_times(rhs),
    ;

    fn is_zero(self) -> (b: bool)
        ensures
            b == self.spec_is_zero(),
    ;
}

/// Scalars whose arithmetic is exact: zero and one are neutral, zero
/// annihilates, and subtraction undoes addition. Rounding arithmetic does not
/// qualify.
pub trait ExactScalar: Scalar {
    proof fn lemma_zero_plus(a: Self)
        ensures
            Self::spec_zero().spec_plus(a) == a,
    ;

    proof fn lemma_plus_zero(a: Self)
        ensures
            a.spec_plus(Self::spec_zero()) == a,
    ;

    proof fn lemma_zero_times(a: Self)
        ensures
            Self::spec_zero().spec_times(a) == Self::spec_zero(),
    ;

    proof fn lemma_one_times(a: Self)
        ensures
            Self::spec_one().spec_times(a) == a,
    ;

    proof fn lemma_plus_minus(a: Self, b: Self)
        ensures
            a.spec_plus(b).spec_minus(b) == a,
    ;
}

/// Two's-complement integers: arithmetic modulo 2^64.
impl Scalar for i64 {
    open spec fn spec_zero() -> i64 {
        0
    }

    open spec fn spec_one() -> i64 {
        1
    }

    open spec fn spec_plus(self, rhs: i64) -> i64 {
        vstd::wrapping::i64_specs::wrapping_add(self, rhs)
    }

    open spec fn spec_minus(self, rhs: i64) -> i64 {
        vstd::wrapping::i64_specs::wrapping_sub(self, rhs)
    }

    open spec fn spec_times(self, rhs: i64) -> i64 {
        vstd::wrapping::i64_specs::wrapping_mul(self, rhs)
    }

    open spec fn spec_is_zero(self) -> bool {
        self == 0
    }

    fn zero() -> (r: i64) {
        0
    }

    fn one() -> (r: i64) {
        1
    }

    fn plus(self, rhs: i64) -> (r: i64) {
        self.wrapping_add(rhs)
    }

    fn minus(self, rhs: i64) -> (r: i64) {
        self.wrapping_sub(rhs)
    }

    fn times(self, rhs: i64) -> (r: i64) {
        self.wrapping_mul(rhs)
    }

    fn is_zero(self) -> (b: bool) {
        self == 0
    }
}

impl ExactScalar for i64 {
    proof fn lemma_zero_plus(a: i64) {
    }

    proof fn lemma_plus_zero(a: i64) {
    }

    proof fn lemma_zero_times(a: i64) {
        assert(0 * a == 0) by (nonlinear_arith);
    }

    proof fn lemma_one_times(a: i64) {
        assert(1 * a == a) by (nonlinear_arith);
    }

    proof fn lemma_plus_minus(a: i64, b: i64) {
    }
}

} // verus!
