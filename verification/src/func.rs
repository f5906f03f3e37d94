use vstd::prelude::*;

verus! {

/// The number five.
pub fn five() -> (value: i32)
    ensures
        value == 5,
{
    5
}

/// `x` raised by one hundred; `x` must leave room for that below
/// `i32::MAX`.
pub fn plus_one(x: i32) -> (raised: i32)
    requires
        x + 100 <= i32::MAX,
    ensures
        raised == x + 100,
{
    x + 100
}

} // verus!
