use vstd::prelude::*;
use vstd::string::StringExecFns;

verus! {

/// An integer is copied on assignment; a `String` is moved, and only
/// `clone` makes a second one.
pub fn variables_move_and_clone_on_heap() {
    let x: i32 = 5;
    let y: i32 = x;
    assert(x == y);
    let s1 = String::from_str("hello");
    let s2 = s1;
    let s3 = s2.clone();
    assert(s3@ == s2@);
}

/// Both names hold the integer after the assignment.
pub fn variables_copy_on_heap() {
    let x: i32 = 5;
    let y: i32 = x;
    assert(x == y);
}

/// Makes a string and hands it to the caller.
pub fn gives_ownership() -> (given: String)
    ensures
        given@ == "yours"@,
{
    let some_string = String::from_str("yours");
    some_string
}

/// Takes a string and hands the same string back.
pub fn takes_and_gives_back(a_string: String) -> (returned: String)
    ensures
        returned == a_string,
{
    a_string
}

} // verus!
