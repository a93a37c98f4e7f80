//! Factorials, permutations and combinations on machine-sized integers.

use vstd::prelude::*;

verus! {

/// `n!`, with `0! = 1`.
pub open spec fn factorial(n: nat) -> nat
    decreases n,
{
    if n == 0 {
        1
    } else {
        n * factorial((n - 1) as nat)
    }
}

/// The number of ways to arrange `r` out of `n` items, `n! / (n - r)!`.
/// Where `r` is not below `n` the count is taken to be 1.
pub open spec fn arrangements(n: nat, r: nat) -> nat {
    if n > r {
        factorial(n) / factorial((n - r) as nat)
    } else {
        1
    }
}

/// The number of ways to pick `r` out of `n` items, `n! / ((n - r)! r!)`.
/// Where `r` is not below `n` the count is taken to be 1.
pub open spec fn selections(n: nat, r: nat) -> nat {
    if n > r {
        arrangements(n, r) / factorial(r)
    } else {
        1
    }
}

/// A factorial is never zero.
pub proof fn lemma_factorial_positive(n: nat)
    ensures
        factorial(n) >= 1,
    decreases n,
{
    if n > 0 {
        lemma_factorial_positive((n - 1) as nat);
        assert(n * factorial((n - 1) as nat) >= 1) by (nonlinear_arith)
            requires
                n >= 1,
                factorial((n - 1) as nat) >= 1,
        ;
    }
}

/// The factorial grows with its argument.
pub proof fn lemma_factorial_monotonic(m: nat, n: nat)
    requires
        m <= n,
    ensures
        factorial(m) <= factorial(n),
    decreases n,
{
    if m < n {
        lemma_factorial_monotonic(m, (n - 1) as nat);
        assert(factorial((n - 1) as nat) <= n * factorial((n - 1) as nat)) by (nonlinear_arith)
            requires
                n >= 1,
        ;
    }
}

/// Every factorial up to `12!` fits a machine word, whatever its width.
pub proof fn lemma_factorial_small(n: nat)
    requires
        n <= 12,
    ensures
        factorial(n) <= 479001600,
        factorial(n) <= usize::MAX,
{
    assert(factorial(12) == 479001600) by {
        reveal_with_fuel(factorial, 13);
    }
    lemma_factorial_monotonic(n, 12);
}

/// The binomial coefficient, by Pascal's rule.
pub open spec fn binomial(n: nat, r: nat) -> nat
    decreases n,
{
    if r == 0 {
        1
    } else if n == 0 {
        0
    } else {
        binomial((n - 1) as nat, (r - 1) as nat) + binomial((n - 1) as nat, r)
    }
}

/// There is no way to pick more items than there are.
pub proof fn lemma_binomial_beyond(n: nat, r: nat)
    requires
        r > n,
    ensures
        binomial(n, r) == 0,
    decreases n,
{
    if n > 0 {
        lemma_binomial_beyond((n - 1) as nat, (r - 1) as nat);
        lemma_binomial_beyond((n - 1) as nat, r);
    }
}

/// The binomial coefficient in factorials: `C(n, r) r! (n - r)! = n!`.
pub proof fn lemma_binomial_factorials(n: nat, r: nat)
    requires
        r <= n,
    ensures
        binomial(n, r) * factorial(r) * factorial((n - r) as nat) == factorial(n),
    decreases n,
{
    if r == 0 {
        assert(1 * 1 * factorial(n) == factorial(n)) by (nonlinear_arith);
    } else {
        let a = binomial((n - 1) as nat, (r - 1) as nat);
        let b = binomial((n - 1) as nat, r);
        let below = factorial((n - 1) as nat);
        let fr = factorial((r - 1) as nat);
        let fd = factorial((n - r) as nat);
        lemma_binomial_factorials((n - 1) as nat, (r - 1) as nat);
        assert(a * fr * fd == below);
        assert(a * (r * fr) * fd == r * below) by (nonlinear_arith)
            requires
                a * fr * fd == below,
        ;
        if r == n {
            lemma_binomial_beyond((n - 1) as nat, r);
            assert((a + b) * (r * fr) * fd == n * below);
        } else {
            let fe = factorial((n - r - 1) as nat);
            lemma_binomial_factorials((n - 1) as nat, r);
            assert(b * (r * fr) * fe == below);
            assert(b * (r * fr) * ((n - r) * fe) == (n - r) * below) by (nonlinear_arith)
                requires
                    b * (r * fr) * fe == below,
            ;
            assert((a + b) * (r * fr) * fd == a * (r * fr) * fd + b * (r * fr) * fd)
                by (nonlinear_arith);
            assert(r * below + (n - r) * below == n * below) by (nonlinear_arith);
        }
    }
}

/// The division in the number of arrangements leaves no remainder, and the
/// number is `C(n, r) r!`.
pub proof fn lemma_arrangements_exact(n: nat, r: nat)
    requires
        r < n,
    ensures
        arrangements(n, r) * factorial((n - r) as nat) == factorial(n),
        arrangements(n, r) == binomial(n, r) * factorial(r),
{
    let d = factorial((n - r) as nat);
    let x = binomial(n, r) * factorial(r);
    lemma_binomial_factorials(n, r);
    lemma_factorial_positive((n - r) as nat);
    assert((x * d) / d == x) by (nonlinear_arith)
        requires
            d >= 1,
    ;
}

/// The number of selections of fewer than `n` out of `n` items is the
/// binomial coefficient.
pub proof fn lemma_selections_binomial(n: nat, r: nat)
    requires
        r < n,
    ensures
        selections(n, r) == binomial(n, r),
{
    let d = factorial(r);
    let x = binomial(n, r);
    lemma_arrangements_exact(n, r);
    lemma_factorial_positive(r);
    assert((x * d) / d == x) by (nonlinear_arith)
        requires
            d >= 1,
    ;
}

/// Returns `n!`. The factorial of zero is one.
pub fn fact(n: usize) -> (r: usize)
    requires
        factorial(n as nat) <= usize::MAX,
    ensures
        r == factorial(n as nat),
    decreases n,
{
    if n <= 1 {
        assert(factorial(n as nat) == 1) by {
            reveal_with_fuel(factorial, 2);
        }
        return 1;
    }
    proof {
        lemma_factorial_monotonic((n - 1) as nat, n as nat);
    }
    n * fact(n - 1)
}

/// Returns the number of arrangements of `r` out of `n` items.
pub fn permutation(n: usize, r: usize) -> (p: usize)
    requires
        n > r ==> factorial(n as nat) <= usize::MAX,
    ensures
        p == arrangements(n as nat, r as nat),
        n > r ==> p * factorial((n - r) as nat) == factorial(n as nat),
{
    if n > r {
        proof {
            lemma_factorial_monotonic((n - r) as nat, n as nat);
            lemma_factorial_positive((n - r) as nat);
            lemma_arrangements_exact(n as nat, r as nat);
        }
        fact(n) / fact(n - r)
    } else {
        1
    }
}

/// Returns the number of selections of `r` out of `n` items.
pub fn combinations(n: usize, r: usize) -> (c: usize)
    requires
        n > r ==> factorial(n as nat) <= usize::MAX,
    ensures
        c == selections(n as nat, r as nat),
        n > r ==> c == binomial(n as nat, r as nat),
{
    if n > r {
        proof {
            lemma_factorial_monotonic(r as nat, n as nat);
            lemma_factorial_positive(r as nat);
            lemma_selections_binomial(n as nat, r as nat);
        }
        permutation(n, r) / fact(r)
    } else {
        1
    }
}

} // verus!
