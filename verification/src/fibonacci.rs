//! Fibonacci numbers by naive recursion.

use vstd::prelude::*;

verus! {

/// The Fibonacci sequence: 0, 1, 1, 2, 3, 5, ...
pub open spec fn spec_fib(n: nat) -> nat
    decreases n,
{
    if n == 0 {
        0
    } else if n == 1 {
        1
    } else {
        spec_fib((n - 1) as nat) + spec_fib((n - 2) as nat)
    }
}

/// The sequence never decreases from one index to a later one.
pub proof fn lemma_fib_is_monotonic(i: nat, j: nat)
    requires
        i <= j,
    ensures
        spec_fib(i) <= spec_fib(j),
    decreases j - i,
{
    if i < j {
        lemma_fib_is_monotonic(i, (j - 1) as nat);
    }
}

/// The defining recurrence, stated on its own: past the two base cases,
/// every Fibonacci number is the sum of the two before it.
pub proof fn lemma_fib_recurrence(n: nat)
    requires
        n >= 2,
    ensures
        spec_fib(n) == spec_fib((n - 1) as nat) + spec_fib((n - 2) as nat),
{
}

/// The n-th Fibonacci number, computed exactly as the recurrence reads:
/// direct recursion, no memoization, exponential time.
///
/// The result must fit in `u128`, which holds for every `n` up to 186.
pub fn fib(n: u128) -> (r: u128)
    requires
        spec_fib(n as nat) <= u128::MAX,
    ensures
        r == spec_fib(n as nat),
    decreases n,
{
    if n == 0 {
        0
    } else if n == 1 {
        1
    } else {
        proof {
            lemma_fib_is_monotonic((n - 1) as nat, n as nat);
            lemma_fib_is_monotonic((n - 2) as nat, n as nat);
        }
        fib(n - 1) + fib(n - 2)
    }
}

} // verus!
