use num::bigint::BigUint;
use num::traits::{One, Zero};
use vstd::prelude::*;

verus! {

/// `num::bigint::BigUint`, an unsigned integer of any size.
#[verifier::external_type_specification]
#[verifier::external_body]
pub struct ExBigUint(num::bigint::BigUint);

/// The base 2^32 digits of a `BigUint`, least significant first, as
/// `BigUint::to_u32_digits` lists them.
pub uninterp spec fn big_digits(n: BigUint) -> Seq<u32>;

/// The number that base 2^32 digits stand for, least significant first.
pub open spec fn digits_value(digits: Seq<u32>) -> nat
    decreases digits.len(),
{
    if digits.len() == 0 {
        0
    } else {
        digits[0] as nat + 0x1_0000_0000 * digits_value(digits.drop_first())
    }
}

/// The natural number that a `BigUint` holds.
pub open spec fn big_value(n: BigUint) -> nat {
    digits_value(big_digits(n))
}

/// `Zero::zero` of `BigUint`: the number zero.
#[verifier::external_body]
pub(crate) fn big_zero() -> (n: BigUint)
    ensures
        digits_value(big_digits(n)) == 0,
{
    Zero::zero()
}

/// `One::one` of `BigUint`: the number one.
#[verifier::external_body]
pub(crate) fn big_one() -> (n: BigUint)
    ensures
        digits_value(big_digits(n)) == 1,
{
    One::one()
}

/// `BigUint + &BigUint`: the sum of the two numbers; a `BigUint` grows as
/// needed, so the sum is exact.
#[verifier::external_body]
pub(crate) fn big_plus(a: BigUint, b: &BigUint) -> (sum: BigUint)
    ensures
        digits_value(big_digits(sum)) == digits_value(big_digits(a)) + digits_value(
            big_digits(*b),
        ),
{
    a + b
}

/// `&BigUint + &BigUint`: the sum of the two numbers, both left in place.
#[verifier::external_body]
pub(crate) fn big_plus_refs(a: &BigUint, b: &BigUint) -> (sum: BigUint)
    ensures
        digits_value(big_digits(sum)) == digits_value(big_digits(*a)) + digits_value(
            big_digits(*b),
        ),
{
    a + b
}

} // verus!
