use crate::biguint::{big_one, big_plus_refs, big_value};
use crate::fib::{fib, lemma_fib_monotonic};
use num::bigint::BigUint;
use std::mem::replace;
use vstd::prelude::*;

verus! {

/// Whether `number` is below three, and the value that a conditional
/// expression whose condition holds gives to a new binding of that name.
pub fn control_flow(number: i32) -> (outcome: (bool, i32))
    ensures
        outcome.0 == (number < 3),
        outcome.1 == 5,
{
    let below = number < 3;
    let condition = true;
    let number: i32 = if condition {
        5
    } else {
        6
    };
    (below, number)
}

/// The `n`-th Fibonacci number at any size, counted from
/// `fib(1) == fib(2) == 1`; one for every `n` below two.
pub fn fibonacci(n: isize) -> (number: BigUint)
    ensures
        big_value(number) == if n < 2 {
            1
        } else {
            fib(n as nat)
        },
{
    let mut pre1: BigUint = big_one();
    let mut pre2: BigUint = big_one();
    let mut cur: BigUint = big_one();
    if n < 2 {
        return cur;
    }
    proof {
        reveal_with_fuel(fib, 3);
    }
    for i in 2..n
        invariant
            2 <= n,
            big_value(pre2) == fib((i - 1) as nat),
            big_value(cur) == fib(i as nat),
    {
        pre1 = replace(&mut pre2, cur);
        cur = big_plus_refs(&pre1, &pre2);
    }
    cur
}

/// The `n`-th Fibonacci number, counted from `fib(0) == 0`, by plain double
/// recursion: the running time grows as fast as the result does.
pub fn fibonacci_over_flow(n: isize) -> (number: isize)
    requires
        0 <= n,
        fib(n as nat) <= isize::MAX,
    ensures
        number == fib(n as nat),
    decreases n,
{
    if n == 1 {
        return 1;
    }
    if n == 0 {
        return 0;
    }
    proof {
        lemma_fib_monotonic((n - 1) as nat, n as nat);
        lemma_fib_monotonic((n - 2) as nat, n as nat);
    }
    return fibonacci_over_flow(n - 1) + fibonacci_over_flow(n - 2);
}

} // verus!
