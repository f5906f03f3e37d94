use crate::biguint::{big_one, big_plus, big_value, big_zero};
use crate::fib::fib;
use num::bigint::BigUint;
use std::mem::replace;
use vstd::prelude::*;

verus! {

/// `core::mem::replace` moves `src` into the place behind `dest` and hands
/// back what was there before.
pub assume_specification<T>[ core::mem::replace::<T> ](dest: &mut T, src: T) -> (previous: T)
    ensures
        *final(dest) == src,
        previous == *old(dest),
;

/// A name that may carry a counter.
pub enum MyEnum {
    A { name: String, x: u8 },
    B { name: String },
}

/// What `a_to_b` leaves behind: an `A` whose counter is zero becomes a `B`
/// with the same name, and anything else stays as it is.
pub open spec fn converted(e: MyEnum) -> MyEnum {
    match e {
        MyEnum::A { name, x } => if x == 0 {
            MyEnum::B { name }
        } else {
            e
        },
        MyEnum::B { .. } => e,
    }
}

/// Turns an `A` whose counter is zero into a `B`, moving the name over
/// without copying it.
pub fn a_to_b(e: &mut MyEnum)
    ensures
        *final(e) == converted(*old(e)),
{
    *e = if let MyEnum::A { ref mut name, x: 0 } = *e {
        MyEnum::B { name: replace(name, String::new()) }
    } else {
        return ;
    }
}

/// `replace` takes a value out of a borrowed place and leaves another
/// there, so that a field can move where a copy would otherwise be made.
pub fn use_replace() {
}

/// The `n`-th Fibonacci number, counted from `fib(0) == 0`, at any size.
pub fn fibonacci(n: usize) -> (number: BigUint)
    ensures
        big_value(number) == fib(n as nat),
{
    let mut f0: BigUint = big_zero();
    let mut f1: BigUint = big_one();
    for i in 0..n
        invariant
            big_value(f0) == fib(i as nat),
            big_value(f1) == fib((i + 1) as nat),
    {
        let f2: BigUint = big_plus(f0, &f1);
        f0 = replace(&mut f1, f2);
    }
    f0
}

} // verus!
